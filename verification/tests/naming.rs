use sfx_instant::common::{app_id_flag, archive_flag, get_custom_data_key, get_index_key};
use sfx_instant::decimal::{parse_u32_decimal, u32_to_decimal};
use sfx_instant::store::{key_name, ResKey};

#[test]
fn renders_decimal_numerals() {
    assert_eq!(u32_to_decimal(0), "0");
    assert_eq!(u32_to_decimal(7), "7");
    assert_eq!(u32_to_decimal(10), "10");
    assert_eq!(u32_to_decimal(12345), "12345");
    assert_eq!(u32_to_decimal(u32::MAX), "4294967295");
}

#[test]
fn parses_decimal_numerals() {
    assert_eq!(parse_u32_decimal("0"), Some(0));
    assert_eq!(parse_u32_decimal("3"), Some(3));
    assert_eq!(parse_u32_decimal("007"), Some(7));
    assert_eq!(parse_u32_decimal("4294967295"), Some(u32::MAX));
    assert_eq!(parse_u32_decimal("4294967296"), None);
    assert_eq!(parse_u32_decimal("99999999999"), None);
    assert_eq!(parse_u32_decimal(""), None);
    assert_eq!(parse_u32_decimal("12a"), None);
    assert_eq!(parse_u32_decimal("-1"), None);
    assert_eq!(parse_u32_decimal("+3"), None);
    assert_eq!(parse_u32_decimal(" 3"), None);
}

#[test]
fn parse_inverts_rendering() {
    for n in [0u32, 1, 9, 10, 999, 1000, 123456789, u32::MAX] {
        assert_eq!(parse_u32_decimal(u32_to_decimal(n).as_str()), Some(n));
    }
}

#[test]
fn builds_index_keys() {
    assert_eq!(get_index_key(&0), "sfxr/data/index/0");
    assert_eq!(get_index_key(&5), "sfxr/data/index/5");
    assert_eq!(get_index_key(&1234), "sfxr/data/index/1234");
}

#[test]
fn builds_custom_data_keys() {
    let key = String::from("entrypoint");
    assert_eq!(get_custom_data_key(&key), "sfxr/data/custom/entrypoint");
}

#[test]
fn names_store_keys_like_the_carrier_layout() {
    assert_eq!(key_name(&ResKey::Count), "sfxr/data/count");
    assert_eq!(key_name(&ResKey::Index(12)), "sfxr/data/index/12");
    assert_eq!(
        key_name(&ResKey::Custom(String::from("abc"))),
        "sfxr/data/custom/abc"
    );
}

#[test]
fn flag_keys_are_the_carrier_markers() {
    assert_eq!(archive_flag(), "SFX_INSTANT_FLAG__PACKAGE_ARCHIVE");
    assert_eq!(app_id_flag(), "SFX_INSTANT_FLAG__APP_ID");
}
