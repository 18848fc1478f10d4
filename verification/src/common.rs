//! Resource naming: the type constant and the name keys under which a
//! carrier stores its payload blocks, its block count and its custom
//! metadata strings.

use vstd::prelude::*;
use vstd::string::StringExecFns;
use crate::decimal::{dec_digits, u32_to_decimal};

verus! {

/// The resource type constant every entry of a carrier is stored under.
pub const RES_TYPE: &'static str = "sfxr/type";

/// The resource name of the block-count entry.
pub const RES_NAME_COUNT: &'static str = "sfxr/data/count";

/// The name key of the payload block with index `i`.
pub open spec fn index_key_chars(i: nat) -> Seq<char> {
    "sfxr/data/index/"@ + dec_digits(i)
}

/// The name key of the custom metadata entry for `key`.
pub open spec fn custom_key_chars(key: Seq<char>) -> Seq<char> {
    "sfxr/data/custom/"@ + key
}

/// The custom metadata key (and value) marking a carrier as payload-bearing.
pub open spec fn archive_flag_chars() -> Seq<char> {
    "SFX_INSTANT_FLAG__PACKAGE_ARCHIVE"@
}

/// Builds the archive-marker key.
pub fn archive_flag() -> (s: String)
    ensures
        s@ == archive_flag_chars(),
{
    String::from_str("SFX_INSTANT_FLAG__PACKAGE_ARCHIVE")
}

/// The custom metadata key under which a carrier names its application.
pub open spec fn app_id_flag_chars() -> Seq<char> {
    "SFX_INSTANT_FLAG__APP_ID"@
}

/// Builds the app-id key.
pub fn app_id_flag() -> (s: String)
    ensures
        s@ == app_id_flag_chars(),
{
    String::from_str("SFX_INSTANT_FLAG__APP_ID")
}

/// The archive-marker key and the app-id key are distinct entries.
pub proof fn lemma_flag_keys_distinct()
    ensures
        archive_flag_chars() != app_id_flag_chars(),
{
    reveal_strlit("SFX_INSTANT_FLAG__PACKAGE_ARCHIVE");
    reveal_strlit("SFX_INSTANT_FLAG__APP_ID");
    assert(archive_flag_chars().len() != app_id_flag_chars().len());
}

/// Builds the name key of the payload block with index `index`.
pub fn get_index_key(index: &u32) -> (r: String)
    ensures
        r@ == index_key_chars(*index as nat),
{
    String::from_str("sfxr/data/index/").concat(u32_to_decimal(*index).as_str())
}

/// Builds the name key of the custom metadata entry for `key`.
pub fn get_custom_data_key(key: &String) -> (r: String)
    ensures
        r@ == custom_key_chars(key@),
{
    String::from_str("sfxr/data/custom/").concat(key.as_str())
}

/// Distinct custom metadata keys have distinct name keys.
pub proof fn lemma_custom_keys_injective(a: Seq<char>, b: Seq<char>)
    requires
        a != b,
    ensures
        custom_key_chars(a) != custom_key_chars(b),
{
    if custom_key_chars(a) == custom_key_chars(b) {
        let p = "sfxr/data/custom/"@;
        assert(p + a == p + b);
        assert((p + a).len() == (p + b).len());
        assert(a.len() == b.len());
        assert forall|k: int| 0 <= k < a.len() implies #[trigger] a[k] == b[k] by {
            assert(a[k] == (p + a)[p.len() + k]);
            assert(b[k] == (p + b)[p.len() + k]);
        }
        assert(a =~= b);
    }
}

/// Distinct block indices have distinct name keys.
pub proof fn lemma_index_keys_injective(i: nat, j: nat)
    requires
        i != j,
    ensures
        index_key_chars(i) != index_key_chars(j),
{
    crate::decimal::lemma_dec_digits_val(i);
    crate::decimal::lemma_dec_digits_val(j);
    if index_key_chars(i) == index_key_chars(j) {
        let p = "sfxr/data/index/"@;
        assert(p + dec_digits(i) == p + dec_digits(j));
        assert((p + dec_digits(i)).len() == (p + dec_digits(j)).len());
        assert(dec_digits(i).len() == dec_digits(j).len());
        assert forall|k: int| 0 <= k < dec_digits(i).len() implies #[trigger] dec_digits(i)[k]
            == dec_digits(j)[k] by {
            assert(dec_digits(i)[k] == (p + dec_digits(i))[p.len() + k]);
            assert(dec_digits(j)[k] == (p + dec_digits(j))[p.len() + k]);
        }
        assert(dec_digits(i) =~= dec_digits(j));
    }
}

} // verus!
