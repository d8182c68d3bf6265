//! The JSON wire format of the token routes. A `TokenResponse` travels
//! as `{"token_id": string, "name": string, "symbol": string,
//! "decimals": number, "total_supply": string, "holder_count": number}`;
//! a search answer as a JSON array of such objects. `total_supply` is
//! framed as a JSON string, never as a number, so that supplies beyond
//! native numeric precision survive the wire; `decimals` and
//! `holder_count` are bare decimal numerals.

use vstd::prelude::*;

use crate::api::TokenResponse;

verus! {

/// The sixteen lower-case hexadecimal digit characters.
pub open spec fn hex_char(d: nat) -> char {
    if d == 0 {
        '0'
    } else if d == 1 {
        '1'
    } else if d == 2 {
        '2'
    } else if d == 3 {
        '3'
    } else if d == 4 {
        '4'
    } else if d == 5 {
        '5'
    } else if d == 6 {
        '6'
    } else if d == 7 {
        '7'
    } else if d == 8 {
        '8'
    } else if d == 9 {
        '9'
    } else if d == 10 {
        'a'
    } else if d == 11 {
        'b'
    } else if d == 12 {
        'c'
    } else if d == 13 {
        'd'
    } else if d == 14 {
        'e'
    } else {
        'f'
    }
}

pub open spec fn is_ascii_digit(c: char) -> bool {
    48 <= c as u32 && c as u32 <= 57
}

/// The shortest decimal numeral of `n`: no sign, no leading zero
/// except for `n == 0` itself.
pub open spec fn dec_digits(n: nat) -> Seq<char>
    decreases n,
{
    if n < 10 {
        seq![hex_char(n)]
    } else {
        dec_digits(n / 10) + seq![hex_char(n % 10)]
    }
}

/// A decimal numeral is one or more characters, all of them digits.
pub proof fn lemma_dec_digits_are_digits(n: nat)
    ensures
        dec_digits(n).len() >= 1,
        forall|i: int|
            0 <= i < dec_digits(n).len() ==> is_ascii_digit(#[trigger] dec_digits(n)[i]),
    decreases n,
{
    if n < 10 {
        assert(is_ascii_digit(hex_char(n)));
    } else {
        lemma_dec_digits_are_digits(n / 10);
        assert(is_ascii_digit(hex_char(n % 10)));
    }
}

/// The one-character string holding `hex_char(d)`.
fn hex_str(d: u64) -> (s: &'static str)
    requires
        d < 16,
    ensures
        s@ == seq![hex_char(d as nat)],
{
    if d == 0 {
        proof {
            reveal_strlit("0");
            assert("0"@ =~= seq![hex_char(0)]);
        }
        "0"
    } else if d == 1 {
        proof {
            reveal_strlit("1");
            assert("1"@ =~= seq![hex_char(1)]);
        }
        "1"
    } else if d == 2 {
        proof {
            reveal_strlit("2");
            assert("2"@ =~= seq![hex_char(2)]);
        }
        "2"
    } else if d == 3 {
        proof {
            reveal_strlit("3");
            assert("3"@ =~= seq![hex_char(3)]);
        }
        "3"
    } else if d == 4 {
        proof {
            reveal_strlit("4");
            assert("4"@ =~= seq![hex_char(4)]);
        }
        "4"
    } else if d == 5 {
        proof {
            reveal_strlit("5");
            assert("5"@ =~= seq![hex_char(5)]);
        }
        "5"
    } else if d == 6 {
        proof {
            reveal_strlit("6");
            assert("6"@ =~= seq![hex_char(6)]);
        }
        "6"
    } else if d == 7 {
        proof {
            reveal_strlit("7");
            assert("7"@ =~= seq![hex_char(7)]);
        }
        "7"
    } else if d == 8 {
        proof {
            reveal_strlit("8");
            assert("8"@ =~= seq![hex_char(8)]);
        }
        "8"
    } else if d == 9 {
        proof {
            reveal_strlit("9");
            assert("9"@ =~= seq![hex_char(9)]);
        }
        "9"
    } else if d == 10 {
        proof {
            reveal_strlit("a");
            assert("a"@ =~= seq![hex_char(10)]);
        }
        "a"
    } else if d == 11 {
        proof {
            reveal_strlit("b");
            assert("b"@ =~= seq![hex_char(11)]);
        }
        "b"
    } else if d == 12 {
        proof {
            reveal_strlit("c");
            assert("c"@ =~= seq![hex_char(12)]);
        }
        "c"
    } else if d == 13 {
        proof {
            reveal_strlit("d");
            assert("d"@ =~= seq![hex_char(13)]);
        }
        "d"
    } else if d == 14 {
        proof {
            reveal_strlit("e");
            assert("e"@ =~= seq![hex_char(14)]);
        }
        "e"
    } else {
        proof {
            reveal_strlit("f");
            assert("f"@ =~= seq![hex_char(15)]);
        }
        "f"
    }
}

/// How one character is written inside a JSON string: the quotation
/// mark, the backslash and the named control characters take a
/// two-character escape, every other control character a `\u00XX`
/// escape, and every remaining character stands for itself.
pub open spec fn escape_char(c: char) -> Seq<char> {
    if c == '"' {
        seq!['\\', '"']
    } else if c == '\\' {
        seq!['\\', '\\']
    } else if c == '\u{8}' {
        seq!['\\', 'b']
    } else if c == '\u{c}' {
        seq!['\\', 'f']
    } else if c == '\n' {
        seq!['\\', 'n']
    } else if c == '\r' {
        seq!['\\', 'r']
    } else if c == '\t' {
        seq!['\\', 't']
    } else if (c as u32) < 32 {
        seq!['\\', 'u', '0', '0', hex_char((c as u32 / 16) as nat), hex_char((c as u32 % 16) as nat)]
    } else {
        seq![c]
    }
}

/// The body of a JSON string holding the characters of `s`: each
/// character escaped as `escape_char` says, in order.
pub open spec fn json_escape(s: Seq<char>) -> Seq<char>
    decreases s.len(),
{
    if s.len() == 0 {
        Seq::empty()
    } else {
        json_escape(s.drop_last()) + escape_char(s.last())
    }
}

/// A character that does not stand for itself inside a JSON string.
fn needs_escape(c: char) -> (b: bool)
    ensures
        b == (escape_char(c) != seq![c]),
{
    let b = c == '"' || c == '\\' || (c as u32) < 32;
    proof {
        if b {
            assert(escape_char(c).len() == 2 || escape_char(c).len() == 6);
        } else {
            assert(escape_char(c) =~= seq![c]);
        }
    }
    b
}

/// The escape sequence of a character that needs one.
fn escaped(c: char) -> (p: String)
    requires
        escape_char(c) != seq![c],
    ensures
        p@ == escape_char(c),
{
    if c == '"' {
        proof {
            reveal_strlit("\\\"");
            assert("\\\""@ =~= seq!['\\', '"']);
        }
        "\\\"".to_owned()
    } else if c == '\\' {
        proof {
            reveal_strlit("\\\\");
            assert("\\\\"@ =~= seq!['\\', '\\']);
        }
        "\\\\".to_owned()
    } else if c == '\u{8}' {
        proof {
            reveal_strlit("\\b");
            assert("\\b"@ =~= seq!['\\', 'b']);
        }
        "\\b".to_owned()
    } else if c == '\u{c}' {
        proof {
            reveal_strlit("\\f");
            assert("\\f"@ =~= seq!['\\', 'f']);
        }
        "\\f".to_owned()
    } else if c == '\n' {
        proof {
            reveal_strlit("\\n");
            assert("\\n"@ =~= seq!['\\', 'n']);
        }
        "\\n".to_owned()
    } else if c == '\r' {
        proof {
            reveal_strlit("\\r");
            assert("\\r"@ =~= seq!['\\', 'r']);
        }
        "\\r".to_owned()
    } else if c == '\t' {
        proof {
            reveal_strlit("\\t");
            assert("\\t"@ =~= seq!['\\', 't']);
        }
        "\\t".to_owned()
    } else {
        let u: u32 = c as u32;
        let mut p = "\\u00".to_owned();
        p.append(hex_str((u / 16) as u64));
        p.append(hex_str((u % 16) as u64));
        proof {
            reveal_strlit("\\u00");
            assert("\\u00"@ =~= seq!['\\', 'u', '0', '0']);
            assert(p@ =~= escape_char(c));
        }
        p
    }
}

/// Renders the characters of `s` as the body of a JSON string, every
/// character escaped as the wire format asks.
pub fn escape_json_string(s: &str) -> (r: String)
    ensures
        r@ == json_escape(s@),
{
    let n: usize = s.unicode_len();
    let mut r = String::new();
    let mut i: usize = 0;
    while i < n
        invariant
            n == s@.len(),
            i <= n,
            r@ == json_escape(s@.subrange(0, i as int)),
        decreases n - i,
    {
        let c = s.get_char(i);
        if needs_escape(c) {
            let p = escaped(c);
            r.append(p.as_str());
        } else {
            let piece = s.substring_char(i, i + 1);
            proof {
                assert(piece@ =~= seq![s@[i as int]]);
            }
            r.append(piece);
        }
        proof {
            assert(s@.subrange(0, (i + 1) as int).drop_last() =~= s@.subrange(0, i as int));
            assert(s@.subrange(0, (i + 1) as int).last() == s@[i as int]);
            assert(r@ =~= json_escape(s@.subrange(0, (i + 1) as int)));
        }
        i = i + 1;
    }
    proof {
        assert(s@.subrange(0, n as int) =~= s@);
    }
    r
}

/// Renders `n` as its shortest decimal numeral.
pub fn u64_to_string(n: u64) -> (s: String)
    ensures
        s@ == dec_digits(n as nat),
    decreases n,
{
    if n < 10 {
        hex_str(n).to_owned()
    } else {
        let mut s = u64_to_string(n / 10);
        s.append(hex_str(n % 10));
        proof {
            assert(s@ =~= dec_digits(n as nat));
        }
        s
    }
}

/// The wire form of one `TokenResponse`: a JSON object with the six
/// fields in declaration order, the string fields escaped and quoted,
/// `decimals` and `holder_count` as bare decimal numerals.
pub open spec fn token_response_json(r: TokenResponse) -> Seq<char> {
    "{\"token_id\":\""@ + json_escape(r.token_id@) + "\",\"name\":\""@ + json_escape(r.name@)
        + "\",\"symbol\":\""@ + json_escape(r.symbol@) + "\",\"decimals\":"@ + dec_digits(
        r.decimals as nat,
    ) + ",\"total_supply\":\""@ + json_escape(r.total_supply@) + "\",\"holder_count\":"@
        + dec_digits(r.holder_count as nat) + "}"@
}

/// Serializes one token record for the wire.
pub fn token_response_to_json(r: &TokenResponse) -> (s: String)
    ensures
        s@ == token_response_json(*r),
{
    let mut s = "{\"token_id\":\"".to_owned();
    let token_id = escape_json_string(r.token_id.as_str());
    s.append(token_id.as_str());
    s.append("\",\"name\":\"");
    let name = escape_json_string(r.name.as_str());
    s.append(name.as_str());
    s.append("\",\"symbol\":\"");
    let symbol = escape_json_string(r.symbol.as_str());
    s.append(symbol.as_str());
    s.append("\",\"decimals\":");
    let decimals = u64_to_string(r.decimals as u64);
    s.append(decimals.as_str());
    s.append(",\"total_supply\":\"");
    let total_supply = escape_json_string(r.total_supply.as_str());
    s.append(total_supply.as_str());
    s.append("\",\"holder_count\":");
    let holder_count = u64_to_string(r.holder_count);
    s.append(holder_count.as_str());
    s.append("}");
    proof {
        assert(s@ =~= token_response_json(*r));
    }
    s
}

/// On the wire, `total_supply` always travels as a JSON string — the
/// escaped supply stands between its own quotation marks — while
/// `decimals` travels as a bare decimal numeral, and its value, held in
/// one byte, never leaves [0, 255].
pub proof fn lemma_wire_shape(r: TokenResponse)
    ensures
        0 <= r.decimals <= 255,
        dec_digits(r.decimals as nat).len() >= 1,
        forall|i: int|
            0 <= i < dec_digits(r.decimals as nat).len() ==> is_ascii_digit(
                #[trigger] dec_digits(r.decimals as nat)[i],
            ),
        exists|a: Seq<char>, b: Seq<char>|
            token_response_json(r) == a + (seq!['"'] + json_escape(r.total_supply@) + seq!['"'])
                + b,
{
    lemma_dec_digits_are_digits(r.decimals as nat);
    reveal_strlit(",\"total_supply\":\"");
    reveal_strlit("\",\"holder_count\":");
    let q: Seq<char> = seq!['"'];
    let a = "{\"token_id\":\""@ + json_escape(r.token_id@) + "\",\"name\":\""@ + json_escape(
        r.name@,
    ) + "\",\"symbol\":\""@ + json_escape(r.symbol@) + "\",\"decimals\":"@ + dec_digits(
        r.decimals as nat,
    ) + ",\"total_supply\":\""@.drop_last();
    let b = "\",\"holder_count\":"@.drop_first() + dec_digits(r.holder_count as nat) + "}"@;
    assert(token_response_json(r) =~= a + (q + json_escape(r.total_supply@) + q) + b);
}

/// The bodies of the records of `rs`, joined by commas.
pub open spec fn token_list_items_json(rs: Seq<TokenResponse>) -> Seq<char>
    decreases rs.len(),
{
    if rs.len() == 0 {
        Seq::empty()
    } else if rs.len() == 1 {
        token_response_json(rs[0])
    } else {
        token_list_items_json(rs.drop_last()) + ","@ + token_response_json(rs.last())
    }
}

/// The wire form of a list of token records: a JSON array of their
/// objects, in order.
pub open spec fn token_list_json(rs: Seq<TokenResponse>) -> Seq<char> {
    "["@ + token_list_items_json(rs) + "]"@
}

/// Serializes a list of token records for the wire.
pub fn token_list_to_json(rs: &Vec<TokenResponse>) -> (s: String)
    ensures
        s@ == token_list_json(rs@),
{
    let mut s = "[".to_owned();
    proof {
        assert(s@ =~= "["@ + token_list_items_json(rs@.subrange(0, 0)));
    }
    let mut i: usize = 0;
    while i < rs.len()
        invariant
            i <= rs@.len(),
            s@ == "["@ + token_list_items_json(rs@.subrange(0, i as int)),
        decreases rs@.len() - i,
    {
        if i > 0 {
            s.append(",");
        }
        let item = token_response_to_json(&rs[i]);
        s.append(item.as_str());
        proof {
            let done = rs@.subrange(0, (i + 1) as int);
            assert(done.drop_last() =~= rs@.subrange(0, i as int));
            assert(done.last() == rs@[i as int]);
            assert(s@ =~= "["@ + token_list_items_json(done));
        }
        i = i + 1;
    }
    s.append("]");
    proof {
        assert(rs@.subrange(0, rs@.len() as int) =~= rs@);
        assert(s@ =~= token_list_json(rs@));
    }
    s
}

} // verus!
