//! Request and response models of the token routes, and the three
//! handler cores. Each core is pure: it takes the values the route
//! binds from the request and returns the record the route answers
//! with. No route inspects its semantic input; `get_token` alone copies
//! its path parameter into the answer.

use vstd::prelude::*;

verus! {

/// Body of `POST /api/v1/tokens/index`: the token to index and the
/// numeric id of the chain it lives on. No invariant is placed on the
/// address format; the record is built from wire input and dropped when
/// the handler returns.
#[derive(Debug)]
pub struct TokenIndexRequest {
    pub token_address: String,
    pub chain_id: u64,
}

/// The display record every route answers with: an opaque token id,
/// display name and symbol, decimal precision, the total supply as a
/// decimal string (so that values beyond native integer precision
/// survive the wire), and the holder count.
#[derive(Debug)]
pub struct TokenResponse {
    pub token_id: String,
    pub name: String,
    pub symbol: String,
    pub decimals: u8,
    pub total_supply: String,
    pub holder_count: u64,
}

/// The placeholder values every handler fills in for the fields it does
/// not compute: name, symbol, decimal precision, total supply and
/// holder count of the example token.
pub open spec fn fixed_fields(r: TokenResponse) -> bool {
    &&& r.name@ == "Example Token"@
    &&& r.symbol@ == "EXT"@
    &&& r.decimals == 18u8
    &&& r.total_supply@ == "1000000000000000000000000"@
    &&& r.holder_count == 1000u64
}

/// The complete placeholder record, the fixed token id included.
pub open spec fn example_record(r: TokenResponse) -> bool {
    r.token_id@ == "token123"@ && fixed_fields(r)
}

/// The one record the stub routes know: the fixed placeholder token.
fn example_response() -> (r: TokenResponse)
    ensures
        example_record(r),
{
    TokenResponse {
        token_id: "token123".to_owned(),
        name: "Example Token".to_owned(),
        symbol: "EXT".to_owned(),
        decimals: 18,
        total_supply: "1000000000000000000000000".to_owned(),
        holder_count: 1000,
    }
}

/// Index a new token. The request is accepted but never inspected: for
/// every body the answer is the fixed placeholder record.
pub fn index_token(_req: TokenIndexRequest) -> (r: TokenResponse)
    ensures
        example_record(r),
{
    example_response()
}

/// Search tokens by criteria. The criteria are never inspected: for
/// every query the answer is a one-element list holding the fixed
/// placeholder record.
pub fn search_tokens() -> (rs: Vec<TokenResponse>)
    ensures
        rs@.len() == 1,
        example_record(rs@[0]),
{
    let mut rs: Vec<TokenResponse> = Vec::new();
    rs.push(example_response());
    rs
}

/// Get token details by id. The supplied id is echoed into the answer;
/// every other field is the fixed placeholder value.
pub fn get_token(token_id: String) -> (r: TokenResponse)
    ensures
        r.token_id@ == token_id@,
        fixed_fields(r),
{
    TokenResponse {
        token_id,
        name: "Example Token".to_owned(),
        symbol: "EXT".to_owned(),
        decimals: 18,
        total_supply: "1000000000000000000000000".to_owned(),
        holder_count: 1000,
    }
}

} // verus!
