//! The protocol's round-trip guarantees: what the embedder writes, the
//! extractor reads back unchanged.

use vstd::prelude::*;
use vstd::arithmetic::div_mod::lemma_fundamental_div_mod;
use crate::BLOCKSIZE;
use crate::block_count_of;
use crate::common::{app_id_flag_chars, archive_flag_chars, lemma_flag_keys_distinct};
use crate::decimal::lemma_dec_round_trip;
use crate::embedder::{
    chunk_of, payload_len_ok, with_blocks, with_count, with_custom_string, with_package,
};
use crate::extractor::{assembled, block_at, blocks_present, count_of, custom_string_of};
use crate::store::{KeyModel, ValModel};

verus! {

/// The block count covers the payload: `n` blocks hold at least `len`
/// bytes, and one block fewer would not.
proof fn lemma_count_covers(len: nat)
    ensures
        block_count_of(len) * (BLOCKSIZE as int) >= len,
        block_count_of(len) > 0 ==> (block_count_of(len) - 1) * (BLOCKSIZE as int) < len,
        len == 0 ==> block_count_of(len) == 0,
{
    let b = BLOCKSIZE as int;
    lemma_fundamental_div_mod(len as int + b - 1, b);
    let q = block_count_of(len) as int;
    assert(len + b - 1 == b * q + (len as int + b - 1) % b);
}

/// A payload within the size bound has a block count a `u32` can hold.
proof fn lemma_count_fits(len: nat)
    requires
        payload_len_ok(len),
    ensures
        block_count_of(len) <= u32::MAX,
{
    lemma_count_covers(len);
    if block_count_of(len) > u32::MAX {
        assert((block_count_of(len) - 1) * (BLOCKSIZE as int) >= (u32::MAX as int) * (
        BLOCKSIZE as int));
    }
}

/// Writing blocks `0..n` stores the chunk bytes under each block index.
proof fn lemma_with_blocks_block(m: Map<KeyModel, ValModel>, p: Seq<u8>, n: int, i: int)
    requires
        0 <= i < n,
    ensures
        block_at(with_blocks(m, p, n), i) == Some(chunk_of(p, i)),
    decreases n,
{
    if i < n - 1 {
        lemma_with_blocks_block(m, p, n - 1, i);
        assert(KeyModel::Index((n - 1) as nat) != KeyModel::Index(i as nat));
    }
}

/// The first `k` stored blocks reassemble the first `min(k * BLOCKSIZE,
/// len)` bytes of the payload.
proof fn lemma_assembled_chunks(mm: Map<KeyModel, ValModel>, p: Seq<u8>, n: int, k: int)
    requires
        n == block_count_of(p.len()),
        0 <= k <= n,
        forall|i: int| 0 <= i < n ==> #[trigger] block_at(mm, i) == Some(chunk_of(p, i)),
    ensures
        assembled(mm, k) == p.take(
            if k * (BLOCKSIZE as int) <= p.len() {
                k * (BLOCKSIZE as int)
            } else {
                p.len() as int
            },
        ),
    decreases k,
{
    let b = BLOCKSIZE as int;
    let len = p.len() as int;
    if k == 0 {
        assert(p.take(0) =~= Seq::<u8>::empty());
    } else {
        lemma_assembled_chunks(mm, p, n, k - 1);
        lemma_count_covers(p.len());
        assert((k - 1) * b < len) by {
            assert((k - 1) * b <= (n - 1) * b);
        }
        let lo = (k - 1) * b;
        let hi = if k * b <= len {
            k * b
        } else {
            len
        };
        assert(block_at(mm, k - 1) == Some(chunk_of(p, k - 1)));
        assert(assembled(mm, k) == assembled(mm, k - 1) + chunk_of(p, k - 1));
        assert(p.take(lo) + p.subrange(lo, hi) =~= p.take(hi));
    }
}

/// Law: every block holds at most `BLOCKSIZE` bytes and none is empty;
/// only the last block may be shorter than `BLOCKSIZE`.
pub proof fn lemma_chunk_sizes(p: Seq<u8>, i: int)
    requires
        0 <= i < block_count_of(p.len()),
    ensures
        0 < chunk_of(p, i).len() <= BLOCKSIZE,
        i + 1 < block_count_of(p.len()) ==> chunk_of(p, i).len() == BLOCKSIZE,
{
    let b = BLOCKSIZE as int;
    let n = block_count_of(p.len()) as int;
    lemma_count_covers(p.len());
    assert(i * b < p.len()) by {
        assert(i * b <= (n - 1) * b);
    }
    if i + 1 < n {
        assert((i + 1) * b < p.len()) by {
            assert((i + 1) * b <= (n - 1) * b);
        }
    }
}

/// Law: embedding a payload and reading it back is the identity. After the
/// blocks and the count entry of `p` are written over any table, the count
/// entry parses back to exactly `ceil(len / BLOCKSIZE)` blocks, a block is
/// stored for every counted index, and concatenating the blocks in
/// increasing index order reproduces `p` byte-for-byte.
pub proof fn lemma_embed_then_extract(m: Map<KeyModel, ValModel>, p: Seq<u8>)
    requires
        payload_len_ok(p.len()),
    ensures
        ({
            let n = block_count_of(p.len()) as int;
            let m1 = with_count(with_blocks(m, p, n), n as nat);
            &&& count_of(m1) == Some((n as u32))
            &&& blocks_present(m1, n)
            &&& assembled(m1, n) == p
        }),
{
    let n = block_count_of(p.len()) as int;
    let m0 = with_blocks(m, p, n);
    let m1 = with_count(m0, n as nat);
    lemma_count_fits(p.len());
    lemma_dec_round_trip(n as u32);
    assert forall|i: int| 0 <= i < n implies #[trigger] block_at(m1, i) == Some(
        chunk_of(p, i),
    ) by {
        lemma_with_blocks_block(m, p, n, i);
        assert(KeyModel::Count != KeyModel::Index(i as nat));
    }
    lemma_assembled_chunks(m1, p, n, n);
    lemma_count_covers(p.len());
    assert(p.take(p.len() as int) =~= p);
}

/// Law: embedding a custom string and reading the same key back returns the
/// value unchanged, and no other key's string is disturbed.
pub proof fn lemma_custom_string_round_trip(
    m: Map<KeyModel, ValModel>,
    key: Seq<char>,
    value: Seq<char>,
)
    ensures
        custom_string_of(with_custom_string(m, key, value), key) == Some(value),
        forall|k2: Seq<char>|
            k2 != key ==> #[trigger] custom_string_of(with_custom_string(m, key, value), k2)
                == custom_string_of(m, k2),
{
    assert forall|k2: Seq<char>| k2 != key implies #[trigger] custom_string_of(
        with_custom_string(m, key, value),
        k2,
    ) == custom_string_of(m, k2) by {
        assert(KeyModel::Custom(k2) != KeyModel::Custom(key));
    }
}

/// Law: a key never written reads back as absent.
pub proof fn lemma_custom_string_unwritten(key: Seq<char>)
    ensures
        custom_string_of(Map::<KeyModel, ValModel>::empty(), key) is None,
{
}

/// Law: a table with no count entry has no readable block count — such a
/// carrier bears no payload.
pub proof fn lemma_no_count_entry(m: Map<KeyModel, ValModel>)
    requires
        !m.contains_key(KeyModel::Count),
    ensures
        count_of(m) is None,
{
}

/// Law: a whole embedded package reads back intact — the payload
/// byte-for-byte under the counted blocks, and the archive marker and app
/// id under their keys, both present together.
pub proof fn lemma_package_round_trip(m: Map<KeyModel, ValModel>, p: Seq<u8>, app_id: Seq<char>)
    requires
        payload_len_ok(p.len()),
    ensures
        ({
            let n = block_count_of(p.len()) as int;
            let m1 = with_package(m, p, app_id);
            &&& count_of(m1) == Some((n as u32))
            &&& blocks_present(m1, n)
            &&& assembled(m1, n) == p
            &&& custom_string_of(m1, archive_flag_chars()) == Some(archive_flag_chars())
            &&& custom_string_of(m1, app_id_flag_chars()) == Some(app_id)
        }),
{
    let n = block_count_of(p.len()) as int;
    let m1 = with_count(with_blocks(m, p, n), n as nat);
    let m2 = with_custom_string(m1, archive_flag_chars(), archive_flag_chars());
    let m3 = with_custom_string(m2, app_id_flag_chars(), app_id);
    lemma_embed_then_extract(m, p);
    lemma_flag_keys_distinct();
    assert(count_of(m3) == count_of(m1)) by {
        assert(KeyModel::Custom(archive_flag_chars()) != KeyModel::Count);
        assert(KeyModel::Custom(app_id_flag_chars()) != KeyModel::Count);
    }
    assert forall|i: int| 0 <= i < n implies #[trigger] block_at(m3, i) == block_at(m1, i) by {
        assert(KeyModel::Custom(archive_flag_chars()) != KeyModel::Index(i as nat));
        assert(KeyModel::Custom(app_id_flag_chars()) != KeyModel::Index(i as nat));
    }
    lemma_assembled_same(m1, m3, n);
    assert(custom_string_of(m3, archive_flag_chars()) == Some(archive_flag_chars())) by {
        assert(KeyModel::Custom(app_id_flag_chars()) != KeyModel::Custom(archive_flag_chars()));
    }
}

/// Tables that agree on every block below `n` assemble the same bytes.
proof fn lemma_assembled_same(m1: Map<KeyModel, ValModel>, m2: Map<KeyModel, ValModel>, n: int)
    requires
        forall|i: int| 0 <= i < n ==> #[trigger] block_at(m2, i) == block_at(m1, i),
    ensures
        assembled(m2, n) == assembled(m1, n),
        blocks_present(m1, n) ==> blocks_present(m2, n),
    decreases n,
{
    if n > 0 {
        lemma_assembled_same(m1, m2, n - 1);
    }
}

} // verus!
