use token_api::api::{get_token, index_token, search_tokens, TokenIndexRequest};

#[test]
fn index_token_returns_fixed_record() {
    let req = TokenIndexRequest { token_address: "0x123".to_string(), chain_id: 1 };
    let r = index_token(req);
    assert_eq!(r.token_id, "token123");
    assert_eq!(r.name, "Example Token");
    assert_eq!(r.symbol, "EXT");
    assert_eq!(r.decimals, 18);
    assert_eq!(r.total_supply, "1000000000000000000000000");
    assert_eq!(r.holder_count, 1000);
}

#[test]
fn index_token_ignores_request_content() {
    let req = TokenIndexRequest { token_address: String::new(), chain_id: u64::MAX };
    let r = index_token(req);
    assert_eq!(r.token_id, "token123");
    assert_eq!(r.holder_count, 1000);
    let req2 = TokenIndexRequest { token_address: "not an address".to_string(), chain_id: 0 };
    let r2 = index_token(req2);
    assert_eq!(r2.token_id, "token123");
    assert_eq!(r2.total_supply, "1000000000000000000000000");
}

#[test]
fn search_tokens_returns_one_fixed_record() {
    let rs = search_tokens();
    assert_eq!(rs.len(), 1);
    assert_eq!(rs[0].token_id, "token123");
    assert_eq!(rs[0].name, "Example Token");
    assert_eq!(rs[0].symbol, "EXT");
    assert_eq!(rs[0].decimals, 18);
    assert_eq!(rs[0].total_supply, "1000000000000000000000000");
    assert_eq!(rs[0].holder_count, 1000);
}

#[test]
fn get_token_echoes_path_id() {
    let r = get_token("abc".to_string());
    assert_eq!(r.token_id, "abc");
    assert_eq!(r.name, "Example Token");
    assert_eq!(r.symbol, "EXT");
    assert_eq!(r.decimals, 18);
    assert_eq!(r.total_supply, "1000000000000000000000000");
    assert_eq!(r.holder_count, 1000);
}

#[test]
fn get_token_keeps_unusual_ids() {
    let r = get_token(String::new());
    assert_eq!(r.token_id, "");
    let r2 = get_token("tok/én 1".to_string());
    assert_eq!(r2.token_id, "tok/én 1");
    assert_eq!(r2.symbol, "EXT");
}
