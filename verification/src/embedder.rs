//! The embedder: fragments a payload byte stream into fixed-size blocks and
//! writes them, the block-count entry and custom string metadata into a
//! resource store, all within one carrier update.

use vstd::prelude::*;
use vstd::slice::{slice_subrange, slice_to_vec};
use crate::BLOCKSIZE;
use crate::block_count_of;
use crate::common::{app_id_flag, app_id_flag_chars, archive_flag, archive_flag_chars};
use crate::decimal::dec_digits;
use crate::decimal::u32_to_decimal;
use crate::store::{KeyModel, ResKey, ResVal, ResourceStore, ValModel};

verus! {

/// Payloads large enough to need more blocks than a `u32` can count are
/// rejected up front.
pub open spec fn payload_len_ok(len: nat) -> bool {
    len <= (u32::MAX as int) * (BLOCKSIZE as int)
}

/// The bytes of the payload block with index `i`: the `i`-th consecutive
/// `BLOCKSIZE`-byte slice, the last one possibly shorter.
pub open spec fn chunk_of(p: Seq<u8>, i: int) -> Seq<u8> {
    let start = i * (BLOCKSIZE as int);
    let end = (i + 1) * (BLOCKSIZE as int);
    p.subrange(start, if end <= p.len() { end } else { p.len() as int })
}

/// The table after the first `n` blocks of `p` are written into `m`.
pub open spec fn with_blocks(m: Map<KeyModel, ValModel>, p: Seq<u8>, n: int) -> Map<
    KeyModel,
    ValModel,
>
    decreases n,
{
    if n <= 0 {
        m
    } else {
        with_blocks(m, p, n - 1).insert(
            KeyModel::Index((n - 1) as nat),
            ValModel::Bytes(chunk_of(p, n - 1)),
        )
    }
}

/// The table after the block-count entry for `n` blocks is written into `m`.
pub open spec fn with_count(m: Map<KeyModel, ValModel>, n: nat) -> Map<KeyModel, ValModel> {
    m.insert(KeyModel::Count, ValModel::Text(dec_digits(n)))
}

/// The table after the custom metadata entry `key` is set to `value` in `m`.
pub open spec fn with_custom_string(
    m: Map<KeyModel, ValModel>,
    key: Seq<char>,
    value: Seq<char>,
) -> Map<KeyModel, ValModel> {
    m.insert(KeyModel::Custom(key), ValModel::Text(value))
}

/// The write-log entries of the first `n` blocks of `p`, in index order.
pub open spec fn block_log(p: Seq<u8>, n: int) -> Seq<(KeyModel, ValModel)> {
    Seq::new(n as nat, |i: int| (KeyModel::Index(i as nat), ValModel::Bytes(chunk_of(p, i))))
}

/// Writes the payload as consecutive blocks, index order, and returns how
/// many blocks were written.
pub fn embed_payload(store: &mut ResourceStore, payload: &[u8]) -> (count: u32)
    requires
        payload_len_ok(payload@.len()),
    ensures
        count as nat == block_count_of(payload@.len()),
        final(store)@ == with_blocks(old(store)@, payload@, count as int),
        final(store).log() == old(store).log() + block_log(payload@, count as int),
{
    let len = payload.len();
    let mut index: u32 = 0;
    let mut pos: usize = 0;
    proof {
        assert(store.log() =~= old(store).log() + block_log(payload@, 0));
    }
    while pos < len
        invariant
            len == payload@.len(),
            payload_len_ok(len as nat),
            pos == if (index as int) * (BLOCKSIZE as int) <= len {
                (index as int) * (BLOCKSIZE as int)
            } else {
                len as int
            },
            index > 0 ==> (index as int - 1) * (BLOCKSIZE as int) < len,
            store@ == with_blocks(old(store)@, payload@, index as int),
            store.log() == old(store).log() + block_log(payload@, index as int),
        decreases len - pos,
    {
        proof {
            if (index as int) * (BLOCKSIZE as int) > len {
                assert(pos == len);
                assert(false);
            }
            assert(pos == (index as int) * (BLOCKSIZE as int));
            assert(index < u32::MAX);
        }
        let end = if len - pos > BLOCKSIZE {
            pos + BLOCKSIZE
        } else {
            len
        };
        let block = slice_to_vec(slice_subrange(payload, pos, end));
        proof {
            assert((index as int + 1) * (BLOCKSIZE as int) == (index as int) * (BLOCKSIZE as int)
                + (BLOCKSIZE as int));
            assert(block@ == chunk_of(payload@, index as int));
        }
        store.put(ResKey::Index(index), ResVal::Bytes(block));
        proof {
            assert(store.log() =~= old(store).log() + block_log(payload@, index as int + 1));
        }
        index = index + 1;
        pos = end;
    }
    proof {
        if index > 0 {
            assert((index as int - 1) * (BLOCKSIZE as int) < len);
        }
        assert((index as int) * (BLOCKSIZE as int) >= len);
        lemma_block_count_exact(len as nat, index as nat);
    }
    index
}

/// A count of blocks that covers the payload and whose predecessor does not
/// is the block count.
proof fn lemma_block_count_exact(len: nat, n: nat)
    requires
        n * (BLOCKSIZE as int) >= len,
        n > 0 ==> (n - 1) * (BLOCKSIZE as int) < len,
        len > 0 ==> n > 0,
    ensures
        n == block_count_of(len),
{
    let b = BLOCKSIZE as int;
    vstd::arithmetic::div_mod::lemma_fundamental_div_mod(len as int + b - 1, b);
    let q = (len as int + b - 1) / b;
    let r = (len as int + b - 1) % b;
    assert(len + b - 1 == b * q + r);
    if n > q {
        assert((n - 1) * b >= q * b) by (nonlinear_arith)
            requires
                n - 1 >= q,
                b > 0,
        ;
        assert(len > 0);
    }
    if n < q {
        assert(n * b <= (q - 1) * b) by (nonlinear_arith)
            requires
                n <= q - 1,
                b > 0,
        ;
    }
}

/// Writes the terminal block-count entry, as a decimal numeral. To be called
/// only after every block was written.
pub fn embed_block_count(store: &mut ResourceStore, block_count: &u32)
    ensures
        final(store)@ == with_count(old(store)@, *block_count as nat),
        final(store).log() == old(store).log().push(
            (KeyModel::Count, ValModel::Text(dec_digits(*block_count as nat))),
        ),
{
    let text = u32_to_decimal(*block_count);
    store.put(ResKey::Count, ResVal::Text(text));
}

/// Writes one custom metadata entry.
pub fn embed_custom_string(store: &mut ResourceStore, key: &String, value: &String)
    ensures
        final(store)@ == with_custom_string(old(store)@, key@, value@),
        final(store).log() == old(store).log().push(
            (KeyModel::Custom(key@), ValModel::Text(value@)),
        ),
{
    store.put(ResKey::Custom(key.clone()), ResVal::Text(value.clone()));
}

/// Embeds a payload as an archive: every block in index order, then the
/// block count — the count entry only ever follows the blocks it counts, so
/// a reader never observes a count without its blocks.
pub fn embed_binary_as_archive(store: &mut ResourceStore, payload: &[u8]) -> (count: u32)
    requires
        payload_len_ok(payload@.len()),
    ensures
        count as nat == block_count_of(payload@.len()),
        final(store)@ == with_count(
            with_blocks(old(store)@, payload@, count as int),
            count as nat,
        ),
        final(store).log() == old(store).log() + block_log(payload@, count as int) + seq![
            (KeyModel::Count, ValModel::Text(dec_digits(count as nat))),
        ],
{
    let count = embed_payload(store, payload);
    embed_block_count(store, &count);
    proof {
        assert(store.log() =~= old(store).log() + block_log(payload@, count as int) + seq![
            (KeyModel::Count, ValModel::Text(dec_digits(count as nat))),
        ]);
    }
    count
}

/// The table after a whole package is embedded into `m`: all blocks of `p`,
/// the count entry, the archive marker and the app id.
pub open spec fn with_package(m: Map<KeyModel, ValModel>, p: Seq<u8>, app_id: Seq<char>) -> Map<
    KeyModel,
    ValModel,
> {
    let n = block_count_of(p.len());
    with_custom_string(
        with_custom_string(
            with_count(with_blocks(m, p, n as int), n),
            archive_flag_chars(),
            archive_flag_chars(),
        ),
        app_id_flag_chars(),
        app_id,
    )
}

/// Embeds a whole package: the payload as blocks, the block count, the
/// archive marker, and the app id — marker and app id are always written
/// together.
pub fn embed_package(store: &mut ResourceStore, payload: &[u8], app_id: &String) -> (count: u32)
    requires
        payload_len_ok(payload@.len()),
    ensures
        count as nat == block_count_of(payload@.len()),
        final(store)@ == with_package(old(store)@, payload@, app_id@),
        final(store).log() == old(store).log() + block_log(payload@, count as int) + seq![
            (KeyModel::Count, ValModel::Text(dec_digits(count as nat))),
            (KeyModel::Custom(archive_flag_chars()), ValModel::Text(archive_flag_chars())),
            (KeyModel::Custom(app_id_flag_chars()), ValModel::Text(app_id@)),
        ],
{
    let count = embed_binary_as_archive(store, payload);
    let marker = archive_flag();
    embed_custom_string(store, &marker, &marker);
    let id_key = app_id_flag();
    embed_custom_string(store, &id_key, app_id);
    proof {
        assert(store.log() =~= old(store).log() + block_log(payload@, count as int) + seq![
            (KeyModel::Count, ValModel::Text(dec_digits(count as nat))),
            (KeyModel::Custom(archive_flag_chars()), ValModel::Text(archive_flag_chars())),
            (KeyModel::Custom(app_id_flag_chars()), ValModel::Text(app_id@)),
        ]);
    }
    count
}

} // verus!
