use token_api::parse::parse_token_index_request;

#[test]
fn valid_body_parses() {
    let r = parse_token_index_request("{\"token_address\":\"0x123\",\"chain_id\":1}").unwrap();
    assert_eq!(r.token_address, "0x123");
    assert_eq!(r.chain_id, 1);
}

#[test]
fn members_may_come_in_either_order() {
    let r = parse_token_index_request("{\"chain_id\":137,\"token_address\":\"abc\"}").unwrap();
    assert_eq!(r.token_address, "abc");
    assert_eq!(r.chain_id, 137);
}

#[test]
fn whitespace_between_tokens_is_ignored() {
    let body = " \t{\r\n \"token_address\" : \"a b\" ,\n \"chain_id\" : 42 }\n";
    let r = parse_token_index_request(body).unwrap();
    assert_eq!(r.token_address, "a b");
    assert_eq!(r.chain_id, 42);
}

#[test]
fn string_escapes_are_unescaped() {
    let r =
        parse_token_index_request("{\"token_address\":\"a\\\"b\\\\c\\nd\\/e\",\"chain_id\":5}")
            .unwrap();
    assert_eq!(r.token_address, "a\"b\\c\nd/e");
    assert_eq!(r.chain_id, 5);
}

#[test]
fn chain_id_may_take_the_largest_value() {
    let r = parse_token_index_request(
        "{\"token_address\":\"t\",\"chain_id\":18446744073709551615}",
    )
    .unwrap();
    assert_eq!(r.chain_id, u64::MAX);
}

#[test]
fn missing_chain_id_is_malformed() {
    assert!(parse_token_index_request("{\"token_address\":\"abc\"}").is_none());
}

#[test]
fn missing_token_address_is_malformed() {
    assert!(parse_token_index_request("{\"chain_id\":1}").is_none());
}

#[test]
fn empty_object_is_malformed() {
    assert!(parse_token_index_request("{}").is_none());
    assert!(parse_token_index_request("{ }").is_none());
}

#[test]
fn duplicate_members_are_malformed() {
    assert!(
        parse_token_index_request(
            "{\"token_address\":\"a\",\"token_address\":\"b\",\"chain_id\":1}"
        )
        .is_none()
    );
    assert!(
        parse_token_index_request("{\"chain_id\":1,\"chain_id\":2,\"token_address\":\"a\"}")
            .is_none()
    );
}

#[test]
fn unknown_members_are_ignored() {
    let r = parse_token_index_request("{\"token_address\":\"a\",\"chain_id\":1,\"extra\":2}")
        .unwrap();
    assert_eq!(r.token_address, "a");
    assert_eq!(r.chain_id, 1);
    let r2 = parse_token_index_request(
        "{\"extra\":null,\"token_address\":\"a\",\"also\":true,\"chain_id\":1}",
    )
    .unwrap();
    assert_eq!(r2.token_address, "a");
    assert_eq!(r2.chain_id, 1);
}

#[test]
fn unknown_members_may_hold_any_json_value() {
    let body = "{\"a\":{\"b\":[1,2,{\"c\":null}],\"d\":\"s\"},\"token_address\":\"t\",\"e\":[[],{}],\"chain_id\":9,\"f\":-1.5e10,\"g\":false}";
    let r = parse_token_index_request(body).unwrap();
    assert_eq!(r.token_address, "t");
    assert_eq!(r.chain_id, 9);
}

#[test]
fn unknown_members_with_broken_values_are_malformed() {
    assert!(
        parse_token_index_request("{\"extra\":01,\"token_address\":\"a\",\"chain_id\":1}")
            .is_none()
    );
    assert!(
        parse_token_index_request("{\"extra\":[1,,2],\"token_address\":\"a\",\"chain_id\":1}")
            .is_none()
    );
    assert!(
        parse_token_index_request("{\"extra\":nul,\"token_address\":\"a\",\"chain_id\":1}")
            .is_none()
    );
    assert!(
        parse_token_index_request("{\"extra\":[1,2,\"token_address\":\"a\",\"chain_id\":1}")
            .is_none()
    );
    assert!(
        parse_token_index_request("{\"extra\":1.,\"token_address\":\"a\",\"chain_id\":1}")
            .is_none()
    );
}

#[test]
fn non_objects_are_malformed() {
    assert!(parse_token_index_request("").is_none());
    assert!(parse_token_index_request("42").is_none());
    assert!(parse_token_index_request("[]").is_none());
    assert!(parse_token_index_request("\"token_address\"").is_none());
}

#[test]
fn trailing_content_is_malformed() {
    assert!(
        parse_token_index_request("{\"token_address\":\"a\",\"chain_id\":1} x").is_none()
    );
    assert!(
        parse_token_index_request("{\"token_address\":\"a\",\"chain_id\":1}}").is_none()
    );
}

#[test]
fn bad_numbers_are_malformed() {
    assert!(parse_token_index_request("{\"token_address\":\"a\",\"chain_id\":01}").is_none());
    assert!(parse_token_index_request("{\"token_address\":\"a\",\"chain_id\":-1}").is_none());
    assert!(parse_token_index_request("{\"token_address\":\"a\",\"chain_id\":1.5}").is_none());
    assert!(
        parse_token_index_request(
            "{\"token_address\":\"a\",\"chain_id\":18446744073709551616}"
        )
        .is_none()
    );
    assert!(
        parse_token_index_request("{\"token_address\":\"a\",\"chain_id\":\"1\"}").is_none()
    );
}

#[test]
fn unicode_escapes_are_unescaped() {
    let r = parse_token_index_request("{\"token_address\":\"a\\u0041b\",\"chain_id\":1}")
        .unwrap();
    assert_eq!(r.token_address, "aAb");
    let r2 = parse_token_index_request("{\"token_address\":\"\\u00e9\\u00C9\",\"chain_id\":2}")
        .unwrap();
    assert_eq!(r2.token_address, "éÉ");
    let r3 = parse_token_index_request("{\"token_address\":\"\\u0000\",\"chain_id\":3}")
        .unwrap();
    assert_eq!(r3.token_address, "\u{0}");
}

#[test]
fn surrogate_pairs_combine() {
    let r = parse_token_index_request(
        "{\"token_address\":\"x\\uD83D\\uDE00y\",\"chain_id\":1}",
    )
    .unwrap();
    assert_eq!(r.token_address, "x\u{1F600}y");
    let r2 = parse_token_index_request(
        "{\"token_address\":\"\\ud800\\udc00\",\"chain_id\":1}",
    )
    .unwrap();
    assert_eq!(r2.token_address, "\u{10000}");
}

#[test]
fn broken_unicode_escapes_are_malformed() {
    assert!(
        parse_token_index_request("{\"token_address\":\"\\ud800\",\"chain_id\":1}").is_none()
    );
    assert!(
        parse_token_index_request("{\"token_address\":\"\\udc00\",\"chain_id\":1}").is_none()
    );
    assert!(
        parse_token_index_request("{\"token_address\":\"\\ud800\\u0041\",\"chain_id\":1}")
            .is_none()
    );
    assert!(
        parse_token_index_request("{\"token_address\":\"\\ud800x\",\"chain_id\":1}").is_none()
    );
    assert!(
        parse_token_index_request("{\"token_address\":\"\\u00\",\"chain_id\":1}").is_none()
    );
    assert!(
        parse_token_index_request("{\"token_address\":\"\\u00zg\",\"chain_id\":1}").is_none()
    );
}

#[test]
fn broken_strings_are_malformed() {
    assert!(parse_token_index_request("{\"token_address\":\"abc,\"chain_id\":1}").is_none());
    assert!(parse_token_index_request("{\"token_address\":\"a\\qb\",\"chain_id\":1}").is_none());
    assert!(parse_token_index_request("{\"token_address\":\"a\tb\",\"chain_id\":1}").is_none());
}

#[test]
fn truncated_bodies_are_malformed() {
    assert!(parse_token_index_request("{\"token_address\":\"a\",\"chain_id\":1").is_none());
    assert!(parse_token_index_request("{\"token_address\":\"a\",").is_none());
    assert!(parse_token_index_request("{").is_none());
}
