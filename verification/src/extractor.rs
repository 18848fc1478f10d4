//! The extractor: reads the block count and the ordered blocks back out of
//! a resource store and reassembles the payload byte stream; reads custom
//! metadata strings.

use vstd::prelude::*;
use crate::decimal::{parse_dec, parse_u32_decimal};
use crate::store::{KeyModel, ResKey, ResVal, ResourceStore, ValModel};

verus! {

/// The bytes of the block with index `i`, when the table holds one there.
pub open spec fn block_at(m: Map<KeyModel, ValModel>, i: int) -> Option<Seq<u8>> {
    if m.contains_key(KeyModel::Index(i as nat)) && m[KeyModel::Index(i as nat)] is Bytes {
        Some(m[KeyModel::Index(i as nat)]->Bytes_0)
    } else {
        None
    }
}

/// Whether the table holds a block for every index below `n`.
pub open spec fn blocks_present(m: Map<KeyModel, ValModel>, n: int) -> bool {
    forall|i: int| 0 <= i < n ==> #[trigger] block_at(m, i) is Some
}

/// The concatenation of the blocks with indices `0..n`, strictly in
/// increasing index order; indices without a block contribute nothing.
pub open spec fn assembled(m: Map<KeyModel, ValModel>, n: int) -> Seq<u8>
    decreases n,
{
    if n <= 0 {
        Seq::empty()
    } else {
        match block_at(m, n - 1) {
            Some(b) => assembled(m, n - 1) + b,
            None => assembled(m, n - 1),
        }
    }
}

/// What the count entry of a table denotes: the parsed value of a text
/// entry under the count key, and nothing otherwise.
pub open spec fn count_of(m: Map<KeyModel, ValModel>) -> Option<u32> {
    if m.contains_key(KeyModel::Count) {
        match m[KeyModel::Count] {
            ValModel::Text(s) => parse_dec(s),
            ValModel::Bytes(_) => None,
        }
    } else {
        None
    }
}

/// What a custom metadata key denotes in a table: the text stored under it,
/// absent when there is none.
pub open spec fn custom_string_of(m: Map<KeyModel, ValModel>, key: Seq<char>) -> Option<
    Seq<char>,
> {
    if m.contains_key(KeyModel::Custom(key)) {
        match m[KeyModel::Custom(key)] {
            ValModel::Text(s) => Some(s),
            ValModel::Bytes(_) => None,
        }
    } else {
        None
    }
}

/// Reads the block count: the count entry parsed as an unsigned decimal
/// numeral. Absence or a non-numeric value signals a carrier without a
/// payload, not a fault.
pub fn read_block_count(store: &ResourceStore) -> (r: Result<u32, ()>)
    ensures
        match r {
            Ok(n) => count_of(store@) == Some(n),
            Err(_) => count_of(store@) is None,
        },
{
    match store.get(&ResKey::Count) {
        Some(v) => match v {
            ResVal::Text(s) => match parse_u32_decimal(s.as_str()) {
                Some(n) => Ok(n),
                None => Err(()),
            },
            ResVal::Bytes(_) => Err(()),
        },
        None => Err(()),
    }
}

/// Reads a custom metadata string; absent rather than failing when the key
/// was never written.
pub fn read_custom_string(store: &ResourceStore, key: &String) -> (r: Option<String>)
    ensures
        match r {
            Some(s) => custom_string_of(store@, key@) == Some(s@),
            None => custom_string_of(store@, key@) is None,
        },
{
    match store.get(&ResKey::Custom(key.clone())) {
        Some(v) => match v {
            ResVal::Text(s) => Some(s.clone()),
            ResVal::Bytes(_) => None,
        },
        None => None,
    }
}

/// Why a payload cannot be reconstructed.
#[derive(PartialEq, Eq, Structural, Clone, Copy, Debug)]
pub enum ExtractError {
    /// The destination the payload was to be written to already exists.
    DestinationExists,
    /// Some index below the supplied block count has no block: the supplied
    /// count does not match the stored blocks.
    MissingBlock,
}

/// Reassembles the payload from blocks `0..block_count`, strictly in
/// increasing index order. Refuses an already-existing destination; fails
/// when a counted block is missing.
pub fn extract_binary(store: &ResourceStore, block_count: u32, destination_exists: bool) -> (r:
    Result<Vec<u8>, ExtractError>)
    ensures
        match r {
            Ok(bytes) => !destination_exists && blocks_present(store@, block_count as int)
                && bytes@ == assembled(store@, block_count as int),
            Err(ExtractError::DestinationExists) => destination_exists,
            Err(ExtractError::MissingBlock) => !destination_exists && !blocks_present(
                store@,
                block_count as int,
            ),
        },
{
    if destination_exists {
        return Err(ExtractError::DestinationExists);
    }
    let mut out: Vec<u8> = Vec::new();
    let mut i: u32 = 0;
    while i < block_count
        invariant
            !destination_exists,
            i <= block_count,
            blocks_present(store@, i as int),
            out@ == assembled(store@, i as int),
        decreases block_count - i,
    {
        match store.get(&ResKey::Index(i)) {
            Some(v) => match v {
                ResVal::Bytes(b) => {
                    out.extend_from_slice(b.as_slice());
                    proof {
                        assert(block_at(store@, i as int) == Some(b@));
                        assert(assembled(store@, i as int + 1) == assembled(store@, i as int)
                            + b@);
                        assert(blocks_present(store@, i as int + 1)) by {
                            assert(forall|j: int|
                                0 <= j < i as int + 1 && j != i as int ==> #[trigger] block_at(
                                    store@,
                                    j,
                                ) is Some);
                        }
                    }
                },
                ResVal::Text(_) => {
                    proof {
                        assert(block_at(store@, i as int) is None);
                        assert(!blocks_present(store@, block_count as int));
                    }
                    return Err(ExtractError::MissingBlock);
                },
            },
            None => {
                proof {
                    assert(block_at(store@, i as int) is None);
                    assert(!blocks_present(store@, block_count as int));
                }
                return Err(ExtractError::MissingBlock);
            },
        }
        i = i + 1;
    }
    Ok(out)
}

} // verus!
