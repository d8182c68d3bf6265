use token_api::api::{get_token, search_tokens, TokenResponse};
use token_api::wire::{escape_json_string, token_list_to_json, token_response_to_json, u64_to_string};

const FIXED_OBJECT: &str = "{\"token_id\":\"token123\",\"name\":\"Example Token\",\"symbol\":\"EXT\",\"decimals\":18,\"total_supply\":\"1000000000000000000000000\",\"holder_count\":1000}";

#[test]
fn fixed_record_serializes_exactly() {
    let r = get_token("token123".to_string());
    assert_eq!(token_response_to_json(&r), FIXED_OBJECT);
}

#[test]
fn search_answer_serializes_as_one_element_array() {
    let rs = search_tokens();
    let expected = format!("[{}]", FIXED_OBJECT);
    assert_eq!(token_list_to_json(&rs), expected);
}

#[test]
fn empty_list_serializes_as_empty_array() {
    let rs: Vec<TokenResponse> = Vec::new();
    assert_eq!(token_list_to_json(&rs), "[]");
}

#[test]
fn two_records_are_joined_by_a_comma() {
    let rs = vec![get_token("a".to_string()), get_token("b".to_string())];
    let s = token_list_to_json(&rs);
    assert!(s.starts_with("[{\"token_id\":\"a\","));
    assert!(s.contains("},{\"token_id\":\"b\","));
    assert!(s.ends_with("}]"));
}

#[test]
fn token_id_is_escaped_on_the_wire() {
    let r = get_token("a\"b\\c\nd".to_string());
    let s = token_response_to_json(&r);
    assert!(s.starts_with("{\"token_id\":\"a\\\"b\\\\c\\nd\","));
}

#[test]
fn control_characters_take_unicode_escapes() {
    assert_eq!(escape_json_string("\u{1}"), "\\u0001");
    assert_eq!(escape_json_string("\u{1f}"), "\\u001f");
    assert_eq!(escape_json_string("\u{8}\u{c}\r\t"), "\\b\\f\\r\\t");
    assert_eq!(escape_json_string("plain text"), "plain text");
}

#[test]
fn decimal_numerals_are_exact() {
    assert_eq!(u64_to_string(0), "0");
    assert_eq!(u64_to_string(7), "7");
    assert_eq!(u64_to_string(1000), "1000");
    assert_eq!(u64_to_string(u64::MAX), "18446744073709551615");
}

#[test]
fn decimals_field_is_a_bare_numeral_for_every_byte_value() {
    let mut r = get_token("t".to_string());
    r.decimals = 0;
    assert!(token_response_to_json(&r).contains("\"decimals\":0,"));
    r.decimals = 255;
    assert!(token_response_to_json(&r).contains("\"decimals\":255,"));
}

#[test]
fn total_supply_stays_a_quoted_string() {
    let mut r = get_token("t".to_string());
    r.total_supply = "340282366920938463463374607431768211455".to_string();
    let s = token_response_to_json(&r);
    assert!(s.contains("\"total_supply\":\"340282366920938463463374607431768211455\","));
}
