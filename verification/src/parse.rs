//! The accepted wire form of a `TokenIndexRequest` body, and its
//! parser. The grammar is the JSON object
//! `{"token_address": string, "chain_id": number}`: both members
//! required, each exactly once, in either order, with arbitrary JSON
//! whitespace between tokens and nothing after the closing brace.
//! Members under any other key are read and discarded, whatever JSON
//! value they hold. Strings take the two-character escapes (`\"`,
//! `\\`, `\/`, `\b`, `\f`, `\n`, `\r`, `\t`) and `\uXXXX` escapes,
//! surrogates paired; a lone surrogate or a bare control character is
//! rejected. The two bound values must be a string and the shortest
//! decimal numeral of a 64-bit value: no sign, no leading zero, no
//! fraction or exponent, no overflow. Everything else is malformed and
//! yields no request, so the route can answer with a structural error
//! instead of a record.

use vstd::prelude::*;

use crate::api::TokenIndexRequest;
use crate::wire::is_ascii_digit;

verus! {

/// JSON insignificant whitespace.
pub open spec fn is_ws(c: char) -> bool {
    c == ' ' || c == '\t' || c == '\n' || c == '\r'
}

/// The first position at or after `i` that does not hold whitespace
/// (or the end of the input).
pub open spec fn skip_ws(s: Seq<char>, i: int) -> int
    decreases s.len() - i,
{
    if 0 <= i && i < s.len() && is_ws(s[i]) {
        skip_ws(s, i + 1)
    } else {
        i
    }
}

fn skip_ws_exec(s: &str, n: usize, i: usize) -> (j: usize)
    requires
        n == s@.len(),
        i <= n,
    ensures
        j == skip_ws(s@, i as int),
        i <= j <= n,
    decreases n - i,
{
    if i < n {
        let c = s.get_char(i);
        if c == ' ' || c == '\t' || c == '\n' || c == '\r' {
            return skip_ws_exec(s, n, i + 1);
        }
    }
    i
}

/// What a backslash escape stands for, if it is one the grammar takes.
pub open spec fn unescaped(c: char) -> Option<char> {
    if c == '"' {
        Some('"')
    } else if c == '\\' {
        Some('\\')
    } else if c == '/' {
        Some('/')
    } else if c == 'n' {
        Some('\n')
    } else if c == 't' {
        Some('\t')
    } else if c == 'r' {
        Some('\r')
    } else if c == 'b' {
        Some('\u{8}')
    } else if c == 'f' {
        Some('\u{c}')
    } else {
        None
    }
}

/// A hexadecimal digit, either case.
pub open spec fn is_hex_digit(c: char) -> bool {
    (48 <= c as u32 && c as u32 <= 57) || (97 <= c as u32 && c as u32 <= 102) || (65 <= c as u32
        && c as u32 <= 70)
}

/// The value of a hexadecimal digit.
pub open spec fn hex_digit_val(c: char) -> u32
    recommends
        is_hex_digit(c),
{
    if 48 <= c as u32 && c as u32 <= 57 {
        (c as u32 - 48) as u32
    } else if 97 <= c as u32 && c as u32 <= 102 {
        (c as u32 - 87) as u32
    } else {
        (c as u32 - 55) as u32
    }
}

/// The value of the four hexadecimal digits at `i`.
pub open spec fn hex4(s: Seq<char>, i: int) -> Option<u32> {
    if 0 <= i && i + 4 <= s.len() && is_hex_digit(s[i]) && is_hex_digit(s[i + 1]) && is_hex_digit(
        s[i + 2],
    ) && is_hex_digit(s[i + 3]) {
        Some(
            (hex_digit_val(s[i]) * 4096 + hex_digit_val(s[i + 1]) * 256 + hex_digit_val(s[i + 2])
                * 16 + hex_digit_val(s[i + 3])) as u32,
        )
    } else {
        None
    }
}

/// The character with code point `u`.
pub open spec fn code_point_char(u: u32) -> char {
    u as char
}

/// Relies on `char::from_u32` of std: the answer is the character with
/// code point `u` exactly when `u` is a Unicode scalar value — not a
/// surrogate and at most 0x10FFFF.
pub assume_specification[ char::from_u32 ](u: u32) -> (r: Option<char>)
    ensures
        r is Some <==> (u < 0xD800 || (0xE000 <= u && u <= 0x10FFFF)),
        r is Some ==> r->Some_0 as u32 == u,
;

/// Relies on `String::push` of std: it appends the given character to
/// the end of the string.
pub assume_specification[ String::push ](s: &mut String, c: char)
    ensures
        final(s)@ == old(s)@ + seq![c],
;

/// Reads a `\uXXXX` escape whose backslash stands at `i`: four
/// hexadecimal digits, a high surrogate only together with the paired
/// low surrogate right after it, a lone surrogate rejected. Returns
/// the character and the position just after the escape.
pub open spec fn parse_unicode_escape(s: Seq<char>, i: int) -> Option<(char, int)> {
    match hex4(s, i + 2) {
        None => None,
        Some(u1) => if 0xD800 <= u1 && u1 <= 0xDBFF {
            if i + 8 <= s.len() && s[i + 6] == '\\' && s[i + 7] == 'u' {
                match hex4(s, i + 8) {
                    None => None,
                    Some(u2) => if 0xDC00 <= u2 && u2 <= 0xDFFF {
                        Some(
                            (
                                code_point_char(
                                    (0x10000 + (u1 - 0xD800) * 1024 + (u2 - 0xDC00)) as u32,
                                ),
                                i + 12,
                            ),
                        )
                    } else {
                        None
                    },
                }
            } else {
                None
            }
        } else if 0xDC00 <= u1 && u1 <= 0xDFFF {
            None
        } else {
            Some((code_point_char(u1), i + 6))
        },
    }
}

fn hex_val_exec(c: char) -> (r: Option<u32>)
    ensures
        match r {
            Some(v) => is_hex_digit(c) && v == hex_digit_val(c),
            None => !is_hex_digit(c),
        },
{
    let u: u32 = c as u32;
    if 48 <= u && u <= 57 {
        Some(u - 48)
    } else if 97 <= u && u <= 102 {
        Some(u - 87)
    } else if 65 <= u && u <= 70 {
        Some(u - 55)
    } else {
        None
    }
}

fn hex4_exec(s: &str, n: usize, i: usize) -> (r: Option<u32>)
    requires
        n == s@.len(),
        i <= n,
    ensures
        r == hex4(s@, i as int),
{
    if n >= 4 && i <= n - 4 {
        let h0 = hex_val_exec(s.get_char(i));
        let h1 = hex_val_exec(s.get_char(i + 1));
        let h2 = hex_val_exec(s.get_char(i + 2));
        let h3 = hex_val_exec(s.get_char(i + 3));
        match (h0, h1, h2, h3) {
            (Some(v0), Some(v1), Some(v2), Some(v3)) => Some(
                v0 * 4096 + v1 * 256 + v2 * 16 + v3,
            ),
            _ => None,
        }
    } else {
        None
    }
}

fn parse_unicode_escape_exec(s: &str, n: usize, i: usize) -> (r: Option<(char, usize)>)
    requires
        n == s@.len(),
        i <= n,
    ensures
        match r {
            Some(p) => parse_unicode_escape(s@, i as int) == Some((p.0, p.1 as int)) && p.1 <= n,
            None => parse_unicode_escape(s@, i as int) is None,
        },
{
    if n < 2 || i > n - 2 {
        return None;
    }
    match hex4_exec(s, n, i + 2) {
        None => None,
        Some(u1) => {
            if 0xD800 <= u1 && u1 <= 0xDBFF {
                if n >= 8 && i <= n - 8 && s.get_char(i + 6) == '\\' && s.get_char(i + 7) == 'u' {
                    match hex4_exec(s, n, i + 8) {
                        None => None,
                        Some(u2) => {
                            if 0xDC00 <= u2 && u2 <= 0xDFFF {
                                let cp: u32 = 0x10000 + (u1 - 0xD800) * 1024 + (u2 - 0xDC00);
                                match char::from_u32(cp) {
                                    Some(ch) => {
                                        proof {
                                            vstd::utf8::char_u32_cast(ch, cp);
                                        }
                                        Some((ch, i + 12))
                                    },
                                    None => None,
                                }
                            } else {
                                None
                            }
                        },
                    }
                } else {
                    None
                }
            } else if 0xDC00 <= u1 && u1 <= 0xDFFF {
                None
            } else {
                match char::from_u32(u1) {
                    Some(ch) => {
                        proof {
                            vstd::utf8::char_u32_cast(ch, u1);
                        }
                        Some((ch, i + 6))
                    },
                    None => None,
                }
            }
        },
    }
}

/// Reads a JSON string from `i`, the position just after the opening
/// quote, to its closing quote. Returns the unescaped characters and
/// the position just after the closing quote, or nothing when the
/// string never closes, holds a bare control character, or uses an
/// escape the grammar does not take.
pub open spec fn parse_string_body(s: Seq<char>, i: int) -> Option<(Seq<char>, int)>
    decreases s.len() - i,
{
    if i < 0 || i >= s.len() {
        None
    } else if s[i] == '"' {
        Some((Seq::empty(), i + 1))
    } else if s[i] == '\\' {
        if i + 1 < s.len() {
            if s[i + 1] == 'u' {
                match parse_unicode_escape(s, i) {
                    Some(ue) => if i < ue.1 && ue.1 <= s.len() {
                        match parse_string_body(s, ue.1) {
                            Some(p) => Some((seq![ue.0] + p.0, p.1)),
                            None => None,
                        }
                    } else {
                        None
                    },
                    None => None,
                }
            } else {
                match unescaped(s[i + 1]) {
                    Some(c) => match parse_string_body(s, i + 2) {
                        Some(p) => Some((seq![c] + p.0, p.1)),
                        None => None,
                    },
                    None => None,
                }
            }
        } else {
            None
        }
    } else if (s[i] as u32) < 32 {
        None
    } else {
        match parse_string_body(s, i + 1) {
            Some(p) => Some((seq![s[i]] + p.0, p.1)),
            None => None,
        }
    }
}

/// The one-character string an accepted escape stands for.
fn unescaped_str(c: char) -> (r: Option<&'static str>)
    ensures
        match r {
            Some(p) => unescaped(c) is Some && p@ == seq![unescaped(c)->Some_0],
            None => unescaped(c) is None,
        },
{
    if c == '"' {
        proof {
            reveal_strlit("\"");
            assert("\""@ =~= seq!['"']);
        }
        Some("\"")
    } else if c == '\\' {
        proof {
            reveal_strlit("\\");
            assert("\\"@ =~= seq!['\\']);
        }
        Some("\\")
    } else if c == '/' {
        proof {
            reveal_strlit("/");
            assert("/"@ =~= seq!['/']);
        }
        Some("/")
    } else if c == 'n' {
        proof {
            reveal_strlit("\n");
            assert("\n"@ =~= seq!['\n']);
        }
        Some("\n")
    } else if c == 't' {
        proof {
            reveal_strlit("\t");
            assert("\t"@ =~= seq!['\t']);
        }
        Some("\t")
    } else if c == 'r' {
        proof {
            reveal_strlit("\r");
            assert("\r"@ =~= seq!['\r']);
        }
        Some("\r")
    } else if c == 'b' {
        proof {
            reveal_strlit("\u{8}");
            assert("\u{8}"@ =~= seq!['\u{8}']);
        }
        Some("\u{8}")
    } else if c == 'f' {
        proof {
            reveal_strlit("\u{c}");
            assert("\u{c}"@ =~= seq!['\u{c}']);
        }
        Some("\u{c}")
    } else {
        None
    }
}

fn parse_string_body_exec(s: &str, n: usize, i: usize) -> (r: Option<(String, usize)>)
    requires
        n == s@.len(),
        i <= n,
    ensures
        match r {
            Some(p) => parse_string_body(s@, i as int) == Some((p.0@, p.1 as int)) && p.1 <= n,
            None => parse_string_body(s@, i as int) is None,
        },
    decreases n - i,
{
    if i >= n {
        return None;
    }
    let c = s.get_char(i);
    if c == '"' {
        Some((String::new(), i + 1))
    } else if c == '\\' {
        if i + 1 < n {
            let e = s.get_char(i + 1);
            if e == 'u' {
                match parse_unicode_escape_exec(s, n, i) {
                    Some(ue) => {
                        if i < ue.1 {
                            match parse_string_body_exec(s, n, ue.1) {
                                Some(p) => {
                                    let mut out = String::new();
                                    out.push(ue.0);
                                    out.append(p.0.as_str());
                                    proof {
                                        assert(out@ =~= seq![ue.0] + p.0@);
                                    }
                                    Some((out, p.1))
                                },
                                None => None,
                            }
                        } else {
                            None
                        }
                    },
                    None => None,
                }
            } else {
                match unescaped_str(e) {
                    Some(head) => match parse_string_body_exec(s, n, i + 2) {
                        Some(p) => {
                            let mut out = head.to_owned();
                            out.append(p.0.as_str());
                            proof {
                                assert(out@ =~= seq![unescaped(e)->Some_0] + p.0@);
                            }
                            Some((out, p.1))
                        },
                        None => None,
                    },
                    None => None,
                }
            }
        } else {
            None
        }
    } else if (c as u32) < 32 {
        None
    } else {
        match parse_string_body_exec(s, n, i + 1) {
            Some(p) => {
                let head = s.substring_char(i, i + 1);
                let mut out = head.to_owned();
                out.append(p.0.as_str());
                proof {
                    assert(out@ =~= seq![s@[i as int]] + p.0@);
                }
                Some((out, p.1))
            },
            None => None,
        }
    }
}

/// The value of a decimal digit character.
pub open spec fn digit_val(c: char) -> u64
    recommends
        is_ascii_digit(c),
{
    (c as u32 - 48) as u64
}

/// Folds decimal digits into `acc` from `i` on, stopping at the first
/// character that is not a digit. Fails when the value would leave
/// 64 bits.
pub open spec fn parse_u64_digits(s: Seq<char>, i: int, acc: u64) -> Option<(u64, int)>
    decreases s.len() - i,
{
    if 0 <= i && i < s.len() && is_ascii_digit(s[i]) {
        let d: u64 = digit_val(s[i]);
        if acc <= (u64::MAX - d) / 10 {
            parse_u64_digits(s, i + 1, (acc * 10 + d) as u64)
        } else {
            None
        }
    } else {
        Some((acc, i))
    }
}

/// Reads a JSON number from `i` as a 64-bit unsigned value: one or
/// more decimal digits, no sign, no leading zero, no fraction or
/// exponent, value at most `u64::MAX`. Returns the value and the
/// position just after the last digit.
pub open spec fn parse_u64_at(s: Seq<char>, i: int) -> Option<(u64, int)> {
    if 0 <= i && i < s.len() && is_ascii_digit(s[i]) {
        if s[i] == '0' {
            if i + 1 < s.len() && is_ascii_digit(s[i + 1]) {
                None
            } else {
                Some((0, i + 1))
            }
        } else {
            parse_u64_digits(s, i, 0)
        }
    } else {
        None
    }
}

fn parse_u64_digits_exec(s: &str, n: usize, i: usize, acc: u64) -> (r: Option<(u64, usize)>)
    requires
        n == s@.len(),
        i <= n,
    ensures
        match r {
            Some(p) => parse_u64_digits(s@, i as int, acc) == Some((p.0, p.1 as int)) && p.1 <= n,
            None => parse_u64_digits(s@, i as int, acc) is None,
        },
    decreases n - i,
{
    if i < n {
        let c = s.get_char(i);
        let u: u32 = c as u32;
        if 48 <= u && u <= 57 {
            let d: u64 = (u - 48) as u64;
            if acc <= (u64::MAX - d) / 10 {
                proof {
                    vstd::arithmetic::div_mod::lemma_fundamental_div_mod(
                        (u64::MAX - d) as int,
                        10,
                    );
                }
                return parse_u64_digits_exec(s, n, i + 1, acc * 10 + d);
            } else {
                return None;
            }
        }
    }
    Some((acc, i))
}

fn parse_u64_at_exec(s: &str, n: usize, i: usize) -> (r: Option<(u64, usize)>)
    requires
        n == s@.len(),
        i <= n,
    ensures
        match r {
            Some(p) => parse_u64_at(s@, i as int) == Some((p.0, p.1 as int)) && p.1 <= n,
            None => parse_u64_at(s@, i as int) is None,
        },
{
    if i < n {
        let c = s.get_char(i);
        let u: u32 = c as u32;
        if 48 <= u && u <= 57 {
            if c == '0' {
                if i + 1 < n {
                    let c2 = s.get_char(i + 1);
                    let u2: u32 = c2 as u32;
                    if 48 <= u2 && u2 <= 57 {
                        return None;
                    }
                }
                return Some((0, i + 1));
            }
            return parse_u64_digits_exec(s, n, i, 0);
        }
    }
    None
}

/// The first position at or after `i` that does not hold a decimal
/// digit (or the end of the input).
pub open spec fn skip_digits(s: Seq<char>, i: int) -> int
    decreases s.len() - i,
{
    if 0 <= i && i < s.len() && is_ascii_digit(s[i]) {
        skip_digits(s, i + 1)
    } else {
        i
    }
}

fn skip_digits_exec(s: &str, n: usize, i: usize) -> (j: usize)
    requires
        n == s@.len(),
        i <= n,
    ensures
        j == skip_digits(s@, i as int),
        i <= j <= n,
    decreases n - i,
{
    if i < n {
        let c = s.get_char(i);
        let u: u32 = c as u32;
        if 48 <= u && u <= 57 {
            return skip_digits_exec(s, n, i + 1);
        }
    }
    i
}

/// Reads past a JSON number at `i` — optional minus sign, integer part
/// without a leading zero, optional fraction and exponent — without
/// keeping its value. Returns the position just after it.
pub open spec fn skip_number(s: Seq<char>, i: int) -> Option<int> {
    let p: int = if 0 <= i && i < s.len() && s[i] == '-' {
        i + 1
    } else {
        i
    };
    if 0 <= p && p < s.len() && is_ascii_digit(s[p]) {
        let q: int = if s[p] == '0' {
            p + 1
        } else {
            skip_digits(s, p)
        };
        if q < s.len() && is_ascii_digit(s[q]) {
            None
        } else {
            let r2: int = if q < s.len() && s[q] == '.' {
                if q + 1 < s.len() && is_ascii_digit(s[q + 1]) {
                    skip_digits(s, q + 1)
                } else {
                    -1
                }
            } else {
                q
            };
            if r2 < 0 {
                None
            } else {
                let t: int = if r2 < s.len() && (s[r2] == 'e' || s[r2] == 'E') {
                    let x: int = if r2 + 1 < s.len() && (s[r2 + 1] == '+' || s[r2 + 1] == '-') {
                        r2 + 2
                    } else {
                        r2 + 1
                    };
                    if x < s.len() && is_ascii_digit(s[x]) {
                        skip_digits(s, x)
                    } else {
                        -1
                    }
                } else {
                    r2
                };
                if t < 0 {
                    None
                } else {
                    Some(t)
                }
            }
        }
    } else {
        None
    }
}

fn skip_number_exec(s: &str, n: usize, i: usize) -> (r: Option<usize>)
    requires
        n == s@.len(),
        i <= n,
    ensures
        match r {
            Some(j) => skip_number(s@, i as int) == Some(j as int) && j <= n,
            None => skip_number(s@, i as int) is None,
        },
{
    let mut p: usize = i;
    if p < n && s.get_char(p) == '-' {
        p = p + 1;
    }
    if p >= n {
        return None;
    }
    let c0 = s.get_char(p);
    let u0: u32 = c0 as u32;
    if !(48 <= u0 && u0 <= 57) {
        return None;
    }
    let q: usize = if c0 == '0' {
        p + 1
    } else {
        skip_digits_exec(s, n, p)
    };
    if q < n {
        let uq: u32 = s.get_char(q) as u32;
        if 48 <= uq && uq <= 57 {
            return None;
        }
    }
    let mut r2: usize = q;
    if q < n && s.get_char(q) == '.' {
        if q + 1 < n {
            let uf: u32 = s.get_char(q + 1) as u32;
            if 48 <= uf && uf <= 57 {
                r2 = skip_digits_exec(s, n, q + 1);
            } else {
                return None;
            }
        } else {
            return None;
        }
    }
    let mut t: usize = r2;
    if r2 < n {
        let ce = s.get_char(r2);
        if ce == 'e' || ce == 'E' {
            let x: usize = if r2 + 1 < n {
                let cs = s.get_char(r2 + 1);
                if cs == '+' || cs == '-' {
                    r2 + 2
                } else {
                    r2 + 1
                }
            } else {
                r2 + 1
            };
            if x < n {
                let ux: u32 = s.get_char(x) as u32;
                if 48 <= ux && ux <= 57 {
                    t = skip_digits_exec(s, n, x);
                } else {
                    return None;
                }
            } else {
                return None;
            }
        }
    }
    Some(t)
}

/// Reads past one JSON value of any shape at `i` — a string, a number,
/// `true`, `false`, `null`, or a nested array or object — without
/// keeping it. Returns the position just after the value. This is how
/// the value of an unrecognized member is consumed.
pub open spec fn skip_value(s: Seq<char>, i: int) -> Option<int>
    decreases s.len() - i, 0int,
{
    if !(0 <= i && i < s.len()) {
        None
    } else if s[i] == '"' {
        match parse_string_body(s, i + 1) {
            Some(p) => Some(p.1),
            None => None,
        }
    } else if s[i] == '{' {
        let j: int = skip_ws(s, i + 1);
        if j < s.len() && s[j] == '}' {
            Some(j + 1)
        } else if i < j && j <= s.len() {
            skip_any_members(s, j)
        } else {
            None
        }
    } else if s[i] == '[' {
        let j: int = skip_ws(s, i + 1);
        if j < s.len() && s[j] == ']' {
            Some(j + 1)
        } else if i < j && j <= s.len() {
            skip_items(s, j)
        } else {
            None
        }
    } else if s[i] == 't' {
        if i + 4 <= s.len() && s[i + 1] == 'r' && s[i + 2] == 'u' && s[i + 3] == 'e' {
            Some(i + 4)
        } else {
            None
        }
    } else if s[i] == 'f' {
        if i + 5 <= s.len() && s[i + 1] == 'a' && s[i + 2] == 'l' && s[i + 3] == 's' && s[i + 4]
            == 'e' {
            Some(i + 5)
        } else {
            None
        }
    } else if s[i] == 'n' {
        if i + 4 <= s.len() && s[i + 1] == 'u' && s[i + 2] == 'l' && s[i + 3] == 'l' {
            Some(i + 4)
        } else {
            None
        }
    } else {
        skip_number(s, i)
    }
}

/// Reads past array items from `i`, a position where an item must
/// start, to the closing bracket.
pub open spec fn skip_items(s: Seq<char>, i: int) -> Option<int>
    decreases s.len() - i, 1int,
{
    match skip_value(s, i) {
        None => None,
        Some(w) => {
            let e: int = skip_ws(s, w);
            if e < s.len() && s[e] == ',' {
                let next: int = skip_ws(s, e + 1);
                if i < next && next <= s.len() {
                    skip_items(s, next)
                } else {
                    None
                }
            } else if e < s.len() && s[e] == ']' {
                Some(e + 1)
            } else {
                None
            }
        },
    }
}

/// Reads past object members from `i`, a position where a key must
/// start, to the closing brace, keeping nothing.
pub open spec fn skip_any_members(s: Seq<char>, i: int) -> Option<int>
    decreases s.len() - i, 1int,
{
    if !(0 <= i && i < s.len() && s[i] == '"') {
        None
    } else {
        match parse_string_body(s, i + 1) {
            None => None,
            Some(kp) => {
                let j: int = skip_ws(s, kp.1);
                if !(j < s.len() && s[j] == ':') {
                    None
                } else {
                    let v: int = skip_ws(s, j + 1);
                    if i < v && v <= s.len() {
                        match skip_value(s, v) {
                            None => None,
                            Some(w) => {
                                let e: int = skip_ws(s, w);
                                if e < s.len() && s[e] == ',' {
                                    let next: int = skip_ws(s, e + 1);
                                    if i < next && next <= s.len() {
                                        skip_any_members(s, next)
                                    } else {
                                        None
                                    }
                                } else if e < s.len() && s[e] == '}' {
                                    Some(e + 1)
                                } else {
                                    None
                                }
                            },
                        }
                    } else {
                        None
                    }
                }
            },
        }
    }
}

fn skip_value_exec(s: &str, n: usize, i: usize) -> (r: Option<usize>)
    requires
        n == s@.len(),
        i <= n,
    ensures
        match r {
            Some(j) => skip_value(s@, i as int) == Some(j as int) && j <= n,
            None => skip_value(s@, i as int) is None,
        },
    decreases n - i, 0int,
{
    if i >= n {
        return None;
    }
    let c = s.get_char(i);
    if c == '"' {
        match parse_string_body_exec(s, n, i + 1) {
            Some(p) => Some(p.1),
            None => None,
        }
    } else if c == '{' {
        let j: usize = skip_ws_exec(s, n, i + 1);
        if j < n && s.get_char(j) == '}' {
            Some(j + 1)
        } else if i < j {
            skip_any_members_exec(s, n, j)
        } else {
            None
        }
    } else if c == '[' {
        let j: usize = skip_ws_exec(s, n, i + 1);
        if j < n && s.get_char(j) == ']' {
            Some(j + 1)
        } else if i < j {
            skip_items_exec(s, n, j)
        } else {
            None
        }
    } else if c == 't' {
        if n >= 4 && i <= n - 4 && s.get_char(i + 1) == 'r' && s.get_char(i + 2) == 'u'
            && s.get_char(i + 3) == 'e' {
            Some(i + 4)
        } else {
            None
        }
    } else if c == 'f' {
        if n >= 5 && i <= n - 5 && s.get_char(i + 1) == 'a' && s.get_char(i + 2) == 'l'
            && s.get_char(i + 3) == 's' && s.get_char(i + 4) == 'e' {
            Some(i + 5)
        } else {
            None
        }
    } else if c == 'n' {
        if n >= 4 && i <= n - 4 && s.get_char(i + 1) == 'u' && s.get_char(i + 2) == 'l'
            && s.get_char(i + 3) == 'l' {
            Some(i + 4)
        } else {
            None
        }
    } else {
        skip_number_exec(s, n, i)
    }
}

fn skip_items_exec(s: &str, n: usize, i: usize) -> (r: Option<usize>)
    requires
        n == s@.len(),
        i <= n,
    ensures
        match r {
            Some(j) => skip_items(s@, i as int) == Some(j as int) && j <= n,
            None => skip_items(s@, i as int) is None,
        },
    decreases n - i, 1int,
{
    match skip_value_exec(s, n, i) {
        None => None,
        Some(w) => {
            let e: usize = skip_ws_exec(s, n, w);
            if e < n && s.get_char(e) == ',' {
                let next: usize = skip_ws_exec(s, n, e + 1);
                if i < next {
                    skip_items_exec(s, n, next)
                } else {
                    None
                }
            } else if e < n && s.get_char(e) == ']' {
                Some(e + 1)
            } else {
                None
            }
        },
    }
}

fn skip_any_members_exec(s: &str, n: usize, i: usize) -> (r: Option<usize>)
    requires
        n == s@.len(),
        i <= n,
    ensures
        match r {
            Some(j) => skip_any_members(s@, i as int) == Some(j as int) && j <= n,
            None => skip_any_members(s@, i as int) is None,
        },
    decreases n - i, 1int,
{
    if i >= n {
        return None;
    }
    if s.get_char(i) != '"' {
        return None;
    }
    match parse_string_body_exec(s, n, i + 1) {
        None => None,
        Some(kp) => {
            let j: usize = skip_ws_exec(s, n, kp.1);
            if j >= n {
                return None;
            }
            if s.get_char(j) != ':' {
                return None;
            }
            let v: usize = skip_ws_exec(s, n, j + 1);
            if i < v {
                match skip_value_exec(s, n, v) {
                    None => None,
                    Some(w) => {
                        let e: usize = skip_ws_exec(s, n, w);
                        if e < n && s.get_char(e) == ',' {
                            let next: usize = skip_ws_exec(s, n, e + 1);
                            if i < next {
                                skip_any_members_exec(s, n, next)
                            } else {
                                None
                            }
                        } else if e < n && s.get_char(e) == '}' {
                            Some(e + 1)
                        } else {
                            None
                        }
                    },
                }
            } else {
                None
            }
        },
    }
}

/// Reads object members from `i`, a position where a member's key
/// must start, until the closing brace. `addr` and `chain` hold the
/// values of the members already read. A `token_address` member must
/// hold a string and a `chain_id` member a number, neither taken
/// twice; a member under any other key is read and its value
/// discarded, whatever its shape. At the brace both bound members must
/// be present. Returns the two values and the position just after the
/// brace.
pub open spec fn parse_members(
    s: Seq<char>,
    i: int,
    addr: Option<Seq<char>>,
    chain: Option<u64>,
) -> Option<(Seq<char>, u64, int)>
    decreases s.len() - i,
{
    if !(0 <= i && i < s.len() && s[i] == '"') {
        None
    } else {
        match parse_string_body(s, i + 1) {
            None => None,
            Some(kp) => {
                let j: int = skip_ws(s, kp.1);
                if !(j < s.len() && s[j] == ':') {
                    None
                } else {
                    let v: int = skip_ws(s, j + 1);
                    if kp.0 == "token_address"@ {
                        if addr is Some {
                            None
                        } else if v < s.len() && s[v] == '"' {
                            match parse_string_body(s, v + 1) {
                                None => None,
                                Some(vp) => {
                                    let e: int = skip_ws(s, vp.1);
                                    if e < s.len() && s[e] == ',' {
                                        let next: int = skip_ws(s, e + 1);
                                        if i < next && next <= s.len() {
                                            parse_members(s, next, Some(vp.0), chain)
                                        } else {
                                            None
                                        }
                                    } else if e < s.len() && s[e] == '}' {
                                        match chain {
                                            Some(cv) => Some((vp.0, cv, e + 1)),
                                            None => None,
                                        }
                                    } else {
                                        None
                                    }
                                },
                            }
                        } else {
                            None
                        }
                    } else if kp.0 == "chain_id"@ {
                        if chain is Some {
                            None
                        } else {
                            match parse_u64_at(s, v) {
                                None => None,
                                Some(np) => {
                                    let e: int = skip_ws(s, np.1);
                                    if e < s.len() && s[e] == ',' {
                                        let next: int = skip_ws(s, e + 1);
                                        if i < next && next <= s.len() {
                                            parse_members(s, next, addr, Some(np.0))
                                        } else {
                                            None
                                        }
                                    } else if e < s.len() && s[e] == '}' {
                                        match addr {
                                            Some(av) => Some((av, np.0, e + 1)),
                                            None => None,
                                        }
                                    } else {
                                        None
                                    }
                                },
                            }
                        }
                    } else {
                        match skip_value(s, v) {
                            None => None,
                            Some(w) => {
                                let e: int = skip_ws(s, w);
                                if e < s.len() && s[e] == ',' {
                                    let next: int = skip_ws(s, e + 1);
                                    if i < next && next <= s.len() {
                                        parse_members(s, next, addr, chain)
                                    } else {
                                        None
                                    }
                                } else if e < s.len() && s[e] == '}' {
                                    match (addr, chain) {
                                        (Some(av), Some(cv)) => Some((av, cv, e + 1)),
                                        _ => None,
                                    }
                                } else {
                                    None
                                }
                            },
                        }
                    }
                }
            },
        }
    }
}

/// The members already read, as the spec-level parser sees them.
pub open spec fn opt_view(a: Option<String>) -> Option<Seq<char>> {
    match a {
        Some(x) => Some(x@),
        None => None,
    }
}

fn parse_members_exec(
    s: &str,
    n: usize,
    i: usize,
    addr: Option<String>,
    chain: Option<u64>,
) -> (r: Option<(String, u64, usize)>)
    requires
        n == s@.len(),
        i <= n,
    ensures
        match r {
            Some(t) => parse_members(s@, i as int, opt_view(addr), chain) == Some(
                (t.0@, t.1, t.2 as int),
            ) && t.2 <= n,
            None => parse_members(s@, i as int, opt_view(addr), chain) is None,
        },
    decreases n - i,
{
    if i >= n {
        return None;
    }
    if s.get_char(i) != '"' {
        return None;
    }
    match parse_string_body_exec(s, n, i + 1) {
        None => None,
        Some(kp) => {
            let j: usize = skip_ws_exec(s, n, kp.1);
            if j >= n {
                return None;
            }
            if s.get_char(j) != ':' {
                return None;
            }
            let v: usize = skip_ws_exec(s, n, j + 1);
            let key_addr = "token_address".to_owned();
            let key_chain = "chain_id".to_owned();
            if kp.0 == key_addr {
                if addr.is_some() {
                    return None;
                }
                if v < n && s.get_char(v) == '"' {
                    match parse_string_body_exec(s, n, v + 1) {
                        None => None,
                        Some(vp) => {
                            let e: usize = skip_ws_exec(s, n, vp.1);
                            if e < n && s.get_char(e) == ',' {
                                let next: usize = skip_ws_exec(s, n, e + 1);
                                if i < next {
                                    parse_members_exec(s, n, next, Some(vp.0), chain)
                                } else {
                                    None
                                }
                            } else if e < n && s.get_char(e) == '}' {
                                match chain {
                                    Some(cv) => Some((vp.0, cv, e + 1)),
                                    None => None,
                                }
                            } else {
                                None
                            }
                        },
                    }
                } else {
                    None
                }
            } else if kp.0 == key_chain {
                if chain.is_some() {
                    return None;
                }
                match parse_u64_at_exec(s, n, v) {
                    None => None,
                    Some(np) => {
                        let e: usize = skip_ws_exec(s, n, np.1);
                        if e < n && s.get_char(e) == ',' {
                            let next: usize = skip_ws_exec(s, n, e + 1);
                            if i < next {
                                parse_members_exec(s, n, next, addr, Some(np.0))
                            } else {
                                None
                            }
                        } else if e < n && s.get_char(e) == '}' {
                            match addr {
                                Some(av) => Some((av, np.0, e + 1)),
                                None => None,
                            }
                        } else {
                            None
                        }
                    },
                }
            } else {
                match skip_value_exec(s, n, v) {
                    None => None,
                    Some(w) => {
                        let e: usize = skip_ws_exec(s, n, w);
                        if e < n && s.get_char(e) == ',' {
                            let next: usize = skip_ws_exec(s, n, e + 1);
                            if i < next {
                                parse_members_exec(s, n, next, addr, chain)
                            } else {
                                None
                            }
                        } else if e < n && s.get_char(e) == '}' {
                            match (addr, chain) {
                                (Some(av), Some(cv)) => Some((av, cv, e + 1)),
                                _ => None,
                            }
                        } else {
                            None
                        }
                    },
                }
            }
        },
    }
}

/// Reads a complete request body: optional whitespace, the object, and
/// nothing after it.
pub open spec fn parse_request(s: Seq<char>) -> Option<(Seq<char>, u64)> {
    let i: int = skip_ws(s, 0);
    if i < s.len() && s[i] == '{' {
        let j: int = skip_ws(s, i + 1);
        match parse_members(s, j, None, None) {
            None => None,
            Some(t) => {
                let e: int = skip_ws(s, t.2);
                if e == s.len() {
                    Some((t.0, t.1))
                } else {
                    None
                }
            },
        }
    } else {
        None
    }
}

/// Parses the body of `POST /api/v1/tokens/index`. Returns the request
/// exactly when the body matches the accepted grammar, and nothing —
/// the route's structural-error path — otherwise.
pub fn parse_token_index_request(s: &str) -> (r: Option<TokenIndexRequest>)
    ensures
        match r {
            Some(req) => parse_request(s@) == Some((req.token_address@, req.chain_id)),
            None => parse_request(s@) is None,
        },
{
    let n: usize = s.unicode_len();
    let i: usize = skip_ws_exec(s, n, 0);
    if i < n && s.get_char(i) == '{' {
        let j: usize = skip_ws_exec(s, n, i + 1);
        match parse_members_exec(s, n, j, None, None) {
            None => None,
            Some(t) => {
                let e: usize = skip_ws_exec(s, n, t.2);
                if e == n {
                    Some(TokenIndexRequest { token_address: t.0, chain_id: t.1 })
                } else {
                    None
                }
            },
        }
    } else {
        None
    }
}

} // verus!
