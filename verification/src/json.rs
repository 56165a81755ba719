use vstd::prelude::*;

use crate::params::is_digit;
use crate::text::chars_eq;

verus! {

pub open spec fn is_ws(c: char) -> bool {
    c == ' ' || c == '\t' || c == '\n' || c == '\r'
}

/// The first index at or after `i` holding no whitespace.
pub open spec fn spec_skip_ws(s: Seq<char>, i: int) -> int
    decreases s.len() - i,
{
    if 0 <= i && i < s.len() && is_ws(s[i]) {
        spec_skip_ws(s, i + 1)
    } else {
        i
    }
}

/// The first index at or after `i` holding no decimal digit.
pub open spec fn spec_digits_end(s: Seq<char>, i: int) -> int
    decreases s.len() - i,
{
    if 0 <= i && i < s.len() && is_digit(s[i]) {
        spec_digits_end(s, i + 1)
    } else {
        i
    }
}

pub open spec fn hex_val(c: char) -> int {
    if '0' <= c && c <= '9' {
        c as int - 48
    } else if 'a' <= c && c <= 'f' {
        c as int - 87
    } else if 'A' <= c && c <= 'F' {
        c as int - 55
    } else {
        -1
    }
}

/// The value of four hex digits at `i`, or -1 when any is no hex digit.
pub open spec fn hex4_val(s: Seq<char>, i: int) -> int
    recommends
        0 <= i,
        i + 4 <= s.len(),
{
    if hex_val(s[i]) < 0 || hex_val(s[i + 1]) < 0 || hex_val(s[i + 2]) < 0 || hex_val(s[i + 3])
        < 0 {
        -1
    } else {
        hex_val(s[i]) * 4096 + hex_val(s[i + 1]) * 256 + hex_val(s[i + 2]) * 16 + hex_val(
            s[i + 3],
        )
    }
}

/// The remainder of a string literal starting at `i` (just past the opening
/// quote), with `acc` the characters decoded so far: escape sequences are
/// decoded, surrogate pairs combined, and bare control characters or lone
/// surrogates rejected. Yields the decoded text and the index past the
/// closing quote.
pub open spec fn spec_str_body(s: Seq<char>, i: int, acc: Seq<char>) -> Option<(Seq<char>, int)>
    decreases s.len() - i,
{
    if i < 0 || i >= s.len() {
        None
    } else if s[i] == '"' {
        Some((acc, i + 1))
    } else if s[i] == '\\' {
        if i + 2 > s.len() {
            None
        } else {
            let e = s[i + 1];
            if e == '"' {
                spec_str_body(s, i + 2, acc.push('"'))
            } else if e == '\\' {
                spec_str_body(s, i + 2, acc.push('\\'))
            } else if e == '/' {
                spec_str_body(s, i + 2, acc.push('/'))
            } else if e == 'b' {
                spec_str_body(s, i + 2, acc.push('\u{8}'))
            } else if e == 'f' {
                spec_str_body(s, i + 2, acc.push('\u{c}'))
            } else if e == 'n' {
                spec_str_body(s, i + 2, acc.push('\n'))
            } else if e == 'r' {
                spec_str_body(s, i + 2, acc.push('\r'))
            } else if e == 't' {
                spec_str_body(s, i + 2, acc.push('\t'))
            } else if e == 'u' {
                if i + 6 > s.len() {
                    None
                } else {
                    let h = hex4_val(s, i + 2);
                    if h < 0 {
                        None
                    } else if 0xD800 <= h && h < 0xDC00 {
                        if i + 12 <= s.len() && s[i + 6] == '\\' && s[i + 7] == 'u' {
                            let l = hex4_val(s, i + 8);
                            if 0xDC00 <= l && l < 0xE000 {
                                spec_str_body(
                                    s,
                                    i + 12,
                                    acc.push(
                                        (((0x10000 + (h - 0xD800) * 0x400 + (l - 0xDC00))
                                            as u32) as char),
                                    ),
                                )
                            } else {
                                None
                            }
                        } else {
                            None
                        }
                    } else if 0xDC00 <= h && h < 0xE000 {
                        None
                    } else {
                        spec_str_body(s, i + 6, acc.push(((h as u32) as char)))
                    }
                }
            } else {
                None
            }
        }
    } else if (s[i] as u32) < 32 {
        None
    } else {
        spec_str_body(s, i + 1, acc.push(s[i]))
    }
}

pub open spec fn spec_parse_string(s: Seq<char>, i: int) -> Option<(Seq<char>, int)> {
    spec_str_body(s, i, Seq::empty())
}

/// The index past a number token starting at `i`: an optional minus, an
/// integer part without leading zeros, an optional fraction, an optional
/// exponent. The token is validated by grammar alone: a number of any
/// magnitude is accepted, with no floating-point range check.
pub open spec fn spec_parse_number(s: Seq<char>, i: int) -> Option<int> {
    let j = if 0 <= i && i < s.len() && s[i] == '-' {
        i + 1
    } else {
        i
    };
    if j < 0 || j >= s.len() || !is_digit(s[j]) {
        None
    } else {
        let k = if s[j] == '0' {
            j + 1
        } else {
            spec_digits_end(s, j)
        };
        let k2 = if k < s.len() && s[k] == '.' {
            let d = spec_digits_end(s, k + 1);
            if d == k + 1 {
                -1
            } else {
                d
            }
        } else {
            k
        };
        if k2 < 0 {
            None
        } else {
            let k3 = if k2 < s.len() && (s[k2] == 'e' || s[k2] == 'E') {
                let e0 = if k2 + 1 < s.len() && (s[k2 + 1] == '+' || s[k2 + 1] == '-') {
                    k2 + 2
                } else {
                    k2 + 1
                };
                let d = spec_digits_end(s, e0);
                if d == e0 {
                    -1
                } else {
                    d
                }
            } else {
                k2
            };
            if k3 < 0 {
                None
            } else {
                Some(k3)
            }
        }
    }
}

/// How deeply arrays and objects may nest before a document is rejected.
pub const MAX_NESTING_DEPTH: u32 = 128;

/// The index past a value starting at `i`: a literal, a string, a number,
/// an array or an object. `depth` is the nesting budget still available:
/// a container at depth zero makes the document unacceptable.
pub open spec fn spec_parse_value(s: Seq<char>, i: int, depth: u32) -> Option<int>
    decreases s.len() - i, 0int,
{
    if i < 0 || i >= s.len() {
        None
    } else {
        let c = s[i];
        if c == 'n' {
            if i + 4 <= s.len() && s[i + 1] == 'u' && s[i + 2] == 'l' && s[i + 3] == 'l' {
                Some(i + 4)
            } else {
                None
            }
        } else if c == 't' {
            if i + 4 <= s.len() && s[i + 1] == 'r' && s[i + 2] == 'u' && s[i + 3] == 'e' {
                Some(i + 4)
            } else {
                None
            }
        } else if c == 'f' {
            if i + 5 <= s.len() && s[i + 1] == 'a' && s[i + 2] == 'l' && s[i + 3] == 's' && s[i
                + 4] == 'e' {
                Some(i + 5)
            } else {
                None
            }
        } else if c == '"' {
            match spec_parse_string(s, i + 1) {
                Some(p) => Some(p.1),
                None => None,
            }
        } else if c == '-' || is_digit(c) {
            spec_parse_number(s, i)
        } else if c == '[' {
            if depth == 0 {
                None
            } else {
                let k = spec_skip_ws(s, i + 1);
                if !(i < k && k <= s.len()) {
                    None
                } else if k < s.len() && s[k] == ']' {
                    Some(k + 1)
                } else {
                    spec_parse_elems(s, k, (depth - 1) as u32)
                }
            }
        } else if c == '{' {
            if depth == 0 {
                None
            } else {
                let k = spec_skip_ws(s, i + 1);
                if !(i < k && k <= s.len()) {
                    None
                } else if k < s.len() && s[k] == '}' {
                    Some(k + 1)
                } else {
                    spec_parse_members(s, k, (depth - 1) as u32)
                }
            }
        } else {
            None
        }
    }
}

/// The index past the remaining elements of an array, `i` standing at the
/// start of an element.
pub open spec fn spec_parse_elems(s: Seq<char>, i: int, depth: u32) -> Option<int>
    decreases s.len() - i, 1int,
{
    if i < 0 || i > s.len() {
        None
    } else {
        match spec_parse_value(s, i, depth) {
            None => None,
            Some(ve) => {
                let k = spec_skip_ws(s, ve);
                if k < s.len() && s[k] == ',' {
                    let m = spec_skip_ws(s, k + 1);
                    if i < m && m <= s.len() {
                        spec_parse_elems(s, m, depth)
                    } else {
                        None
                    }
                } else if k < s.len() && s[k] == ']' {
                    Some(k + 1)
                } else {
                    None
                }
            },
        }
    }
}

/// The index past the remaining members of an object, `i` standing at the
/// opening quote of a key.
pub open spec fn spec_parse_members(s: Seq<char>, i: int, depth: u32) -> Option<int>
    decreases s.len() - i, 1int,
{
    if !(0 <= i && i < s.len() && s[i] == '"') {
        None
    } else {
        match spec_parse_string(s, i + 1) {
            None => None,
            Some(p) => {
                let k = spec_skip_ws(s, p.1);
                if !(k < s.len() && s[k] == ':') {
                    None
                } else {
                    let m = spec_skip_ws(s, k + 1);
                    if !(i < m && m <= s.len()) {
                        None
                    } else {
                        match spec_parse_value(s, m, depth) {
                            None => None,
                            Some(ve) => {
                                let k2 = spec_skip_ws(s, ve);
                                if k2 < s.len() && s[k2] == ',' {
                                    let m2 = spec_skip_ws(s, k2 + 1);
                                    if i < m2 && m2 <= s.len() {
                                        spec_parse_members(s, m2, depth)
                                    } else {
                                        None
                                    }
                                } else if k2 < s.len() && s[k2] == '}' {
                                    Some(k2 + 1)
                                } else {
                                    None
                                }
                            },
                        }
                    }
                }
            },
        }
    }
}

pub fn skip_ws(s: &Vec<char>, i: usize) -> (r: usize)
    requires
        i <= s@.len(),
    ensures
        r == spec_skip_ws(s@, i as int),
        i <= r <= s@.len(),
{
    let n = s.len();
    let mut j = i;
    while j < n && (s[j] == ' ' || s[j] == '\t' || s[j] == '\n' || s[j] == '\r')
        invariant
            i <= j <= n,
            n == s@.len(),
            spec_skip_ws(s@, i as int) == spec_skip_ws(s@, j as int),
        decreases n - j,
    {
        j += 1;
    }
    j
}

pub fn digits_end(s: &Vec<char>, i: usize) -> (r: usize)
    requires
        i <= s@.len(),
    ensures
        r == spec_digits_end(s@, i as int),
        i <= r <= s@.len(),
{
    let n = s.len();
    let mut j = i;
    while j < n && s[j] >= '0' && s[j] <= '9'
        invariant
            i <= j <= n,
            n == s@.len(),
            spec_digits_end(s@, i as int) == spec_digits_end(s@, j as int),
        decreases n - j,
    {
        j += 1;
    }
    j
}

fn hex_val_exec(c: char) -> (r: i32)
    ensures
        r as int == hex_val(c),
        -1 <= r <= 15,
{
    if c >= '0' && c <= '9' {
        (c as u32 as i32) - 48
    } else if c >= 'a' && c <= 'f' {
        (c as u32 as i32) - 87
    } else if c >= 'A' && c <= 'F' {
        (c as u32 as i32) - 55
    } else {
        -1
    }
}

fn hex4(s: &Vec<char>, i: usize) -> (r: i32)
    requires
        i + 4 <= s@.len(),
    ensures
        r as int == hex4_val(s@, i as int),
        -1 <= r <= 0xFFFF,
{
    let _len_bound = s.len();
    let a = hex_val_exec(s[i]);
    let b = hex_val_exec(s[i + 1]);
    let c = hex_val_exec(s[i + 2]);
    let d = hex_val_exec(s[i + 3]);
    if a < 0 || b < 0 || c < 0 || d < 0 {
        return -1;
    }
    a * 4096 + b * 256 + c * 16 + d
}

/// Relies on char::from_u32: a character exactly for code points below the
/// surrogate range or between it and the Unicode maximum, carrying that code
/// point.
#[verifier::external_body]
fn char_from_u32(x: u32) -> (r: Option<char>)
    ensures
        r is Some <==> (x < 0xD800 || (0xE000 <= x && x < 0x110000)),
        r matches Some(c) ==> c as u32 == x,
{
    char::from_u32(x)
}

#[verifier::rlimit(100)]
pub fn parse_string_body(s: &Vec<char>, start: usize) -> (r: Option<(Vec<char>, usize)>)
    requires
        start <= s@.len(),
    ensures
        (r matches Some(p) ==> spec_parse_string(s@, start as int) == Some((p.0@, p.1 as int))
            && start < p.1 <= s@.len()),
        (r is None ==> spec_parse_string(s@, start as int) is None),
{
    let n = s.len();
    let mut acc: Vec<char> = Vec::new();
    let mut i = start;
    loop
        invariant
            start <= i <= n,
            n == s@.len(),
            spec_str_body(s@, start as int, Seq::empty()) == spec_str_body(s@, i as int, acc@),
        decreases n - i,
    {
        if i >= n {
            return None;
        }
        let c = s[i];
        if c == '"' {
            return Some((acc, i + 1));
        } else if c == '\\' {
            if n - i < 2 {
                return None;
            }
            let e = s[i + 1];
            if e == '"' || e == '\\' || e == '/' {
                proof {
                    assert(spec_str_body(s@, i as int, acc@) == spec_str_body(
                        s@,
                        i as int + 2,
                        acc@.push(e),
                    ));
                }
                acc.push(e);
                i += 2;
            } else if e == 'b' {
                proof {
                    assert(spec_str_body(s@, i as int, acc@) == spec_str_body(
                        s@,
                        i as int + 2,
                        acc@.push('\u{8}'),
                    ));
                }
                acc.push('\u{8}');
                i += 2;
            } else if e == 'f' {
                proof {
                    assert(spec_str_body(s@, i as int, acc@) == spec_str_body(
                        s@,
                        i as int + 2,
                        acc@.push('\u{c}'),
                    ));
                }
                acc.push('\u{c}');
                i += 2;
            } else if e == 'n' {
                proof {
                    assert(spec_str_body(s@, i as int, acc@) == spec_str_body(
                        s@,
                        i as int + 2,
                        acc@.push('\n'),
                    ));
                }
                acc.push('\n');
                i += 2;
            } else if e == 'r' {
                proof {
                    assert(spec_str_body(s@, i as int, acc@) == spec_str_body(
                        s@,
                        i as int + 2,
                        acc@.push('\r'),
                    ));
                }
                acc.push('\r');
                i += 2;
            } else if e == 't' {
                proof {
                    assert(spec_str_body(s@, i as int, acc@) == spec_str_body(
                        s@,
                        i as int + 2,
                        acc@.push('\t'),
                    ));
                }
                acc.push('\t');
                i += 2;
            } else if e == 'u' {
                if n - i < 6 {
                    return None;
                }
                let h = hex4(s, i + 2);
                if h < 0 {
                    return None;
                }
                if 0xD800 <= h && h < 0xDC00 {
                    if n - i >= 12 && s[i + 6] == '\\' && s[i + 7] == 'u' {
                        let l = hex4(s, i + 8);
                        if 0xDC00 <= l && l < 0xE000 {
                            let code: u32 = 0x10000 + ((h as u32) - 0xD800) * 0x400 + ((l as u32)
                                - 0xDC00);
                            let c2 = match char_from_u32(code) {
                                Some(c2) => c2,
                                None => {
                                    return None;
                                },
                            };
                            proof {
                                vstd::utf8::char_u32_cast(c2, code);
                                assert(spec_str_body(s@, i as int, acc@) == spec_str_body(
                                    s@,
                                    i as int + 12,
                                    acc@.push(c2),
                                ));
                            }
                            acc.push(c2);
                            i += 12;
                        } else {
                            return None;
                        }
                    } else {
                        return None;
                    }
                } else if 0xDC00 <= h && h < 0xE000 {
                    return None;
                } else {
                    let c2 = match char_from_u32(h as u32) {
                        Some(c2) => c2,
                        None => {
                            return None;
                        },
                    };
                    proof {
                        vstd::utf8::char_u32_cast(c2, h as u32);
                        assert(spec_str_body(s@, i as int, acc@) == spec_str_body(
                            s@,
                            i as int + 6,
                            acc@.push(c2),
                        ));
                    }
                    acc.push(c2);
                    i += 6;
                }
            } else {
                return None;
            }
        } else if (c as u32) < 32 {
            proof {
                assert(spec_str_body(s@, i as int, acc@) is None);
            }
            return None;
        } else {
            proof {
                assert(spec_str_body(s@, i as int, acc@) == spec_str_body(
                    s@,
                    i as int + 1,
                    acc@.push(c),
                ));
            }
            acc.push(c);
            i += 1;
        }
    }
}

pub fn parse_number_end(s: &Vec<char>, i: usize) -> (r: Option<usize>)
    requires
        i <= s@.len(),
    ensures
        (r matches Some(j) ==> spec_parse_number(s@, i as int) == Some(j as int) && i < j
            <= s@.len()),
        (r is None ==> spec_parse_number(s@, i as int) is None),
{
    let n = s.len();
    let j = if i < n && s[i] == '-' {
        i + 1
    } else {
        i
    };
    if j >= n {
        return None;
    }
    if !(s[j] >= '0' && s[j] <= '9') {
        return None;
    }
    let k = if s[j] == '0' {
        j + 1
    } else {
        digits_end(s, j + 1)
    };
    proof {
        assert(spec_digits_end(s@, j as int) == spec_digits_end(s@, j as int + 1));
    }
    let k2 = if k < n && s[k] == '.' {
        let d = digits_end(s, k + 1);
        if d == k + 1 {
            return None;
        }
        d
    } else {
        k
    };
    let k3 = if k2 < n && (s[k2] == 'e' || s[k2] == 'E') {
        let e0 = if k2 + 1 < n && (s[k2 + 1] == '+' || s[k2 + 1] == '-') {
            k2 + 2
        } else {
            k2 + 1
        };
        let d = digits_end(s, e0);
        if d == e0 {
            return None;
        }
        d
    } else {
        k2
    };
    Some(k3)
}

pub fn parse_value(s: &Vec<char>, i: usize, depth: u32) -> (r: Option<usize>)
    requires
        i <= s@.len(),
    ensures
        (r matches Some(j) ==> spec_parse_value(s@, i as int, depth) == Some(j as int) && i < j
            <= s@.len()),
        (r is None ==> spec_parse_value(s@, i as int, depth) is None),
    decreases s@.len() - i, 0int,
{
    let n = s.len();
    if i >= n {
        return None;
    }
    let c = s[i];
    if c == 'n' {
        if n - i >= 4 && s[i + 1] == 'u' && s[i + 2] == 'l' && s[i + 3] == 'l' {
            Some(i + 4)
        } else {
            None
        }
    } else if c == 't' {
        if n - i >= 4 && s[i + 1] == 'r' && s[i + 2] == 'u' && s[i + 3] == 'e' {
            Some(i + 4)
        } else {
            None
        }
    } else if c == 'f' {
        if n - i >= 5 && s[i + 1] == 'a' && s[i + 2] == 'l' && s[i + 3] == 's' && s[i + 4]
            == 'e' {
            Some(i + 5)
        } else {
            None
        }
    } else if c == '"' {
        match parse_string_body(s, i + 1) {
            Some(p) => Some(p.1),
            None => None,
        }
    } else if c == '-' || (c >= '0' && c <= '9') {
        parse_number_end(s, i)
    } else if c == '[' {
        if depth == 0 {
            return None;
        }
        let k = skip_ws(s, i + 1);
        if k < n && s[k] == ']' {
            Some(k + 1)
        } else {
            parse_elems(s, k, depth - 1)
        }
    } else if c == '{' {
        if depth == 0 {
            return None;
        }
        let k = skip_ws(s, i + 1);
        if k < n && s[k] == '}' {
            Some(k + 1)
        } else {
            parse_members(s, k, depth - 1)
        }
    } else {
        None
    }
}

pub fn parse_elems(s: &Vec<char>, i: usize, depth: u32) -> (r: Option<usize>)
    requires
        i <= s@.len(),
    ensures
        (r matches Some(j) ==> spec_parse_elems(s@, i as int, depth) == Some(j as int) && i < j
            <= s@.len()),
        (r is None ==> spec_parse_elems(s@, i as int, depth) is None),
    decreases s@.len() - i, 1int,
{
    let n = s.len();
    let ve = match parse_value(s, i, depth) {
        Some(v) => v,
        None => {
            return None;
        },
    };
    let k = skip_ws(s, ve);
    if k < n && s[k] == ',' {
        let m = skip_ws(s, k + 1);
        parse_elems(s, m, depth)
    } else if k < n && s[k] == ']' {
        Some(k + 1)
    } else {
        None
    }
}

pub fn parse_members(s: &Vec<char>, i: usize, depth: u32) -> (r: Option<usize>)
    requires
        i <= s@.len(),
    ensures
        (r matches Some(j) ==> spec_parse_members(s@, i as int, depth) == Some(j as int) && i < j
            <= s@.len()),
        (r is None ==> spec_parse_members(s@, i as int, depth) is None),
    decreases s@.len() - i, 1int,
{
    let n = s.len();
    if i >= n || s[i] != '"' {
        return None;
    }
    let p = match parse_string_body(s, i + 1) {
        Some(p) => p,
        None => {
            return None;
        },
    };
    let k = skip_ws(s, p.1);
    if !(k < n && s[k] == ':') {
        return None;
    }
    let m = skip_ws(s, k + 1);
    let ve = match parse_value(s, m, depth) {
        Some(v) => v,
        None => {
            return None;
        },
    };
    let k2 = skip_ws(s, ve);
    if k2 < n && s[k2] == ',' {
        let m2 = skip_ws(s, k2 + 1);
        parse_members(s, m2, depth)
    } else if k2 < n && s[k2] == '}' {
        Some(k2 + 1)
    } else {
        None
    }
}

/// Where the value of the last member with the given (decoded) key starts,
/// walking members from `i` (at the opening quote of a key). The last
/// occurrence wins, as it does in the remote service's own documents.
pub open spec fn spec_member_from(s: Seq<char>, i: int, key: Seq<char>, depth: u32) -> Option<
    int,
>
    decreases s.len() - i,
{
    if !(0 <= i && i < s.len() && s[i] == '"') {
        None
    } else {
        match spec_parse_string(s, i + 1) {
            None => None,
            Some(p) => {
                let k = spec_skip_ws(s, p.1);
                if !(k < s.len() && s[k] == ':') {
                    None
                } else {
                    let m = spec_skip_ws(s, k + 1);
                    if !(i < m && m <= s.len()) {
                        None
                    } else {
                        match spec_parse_value(s, m, depth) {
                            None => None,
                            Some(ve) => {
                                let k2 = spec_skip_ws(s, ve);
                                let rest = if k2 < s.len() && s[k2] == ',' {
                                    let m2 = spec_skip_ws(s, k2 + 1);
                                    if i < m2 && m2 <= s.len() {
                                        spec_member_from(s, m2, key, depth)
                                    } else {
                                        None
                                    }
                                } else {
                                    None
                                };
                                match rest {
                                    Some(j) => Some(j),
                                    None => if p.0 == key {
                                        Some(m)
                                    } else {
                                        None
                                    },
                                }
                            },
                        }
                    }
                }
            },
        }
    }
}

/// Where the value for `key` starts in the object at `i`, if the object
/// opens at `i` and carries such a member.
pub open spec fn spec_obj_member(s: Seq<char>, i: int, key: Seq<char>) -> Option<int> {
    if 0 <= i && i < s.len() && s[i] == '{' {
        let k = spec_skip_ws(s, i + 1);
        if k < s.len() && s[k] == '"' {
            spec_member_from(s, k, key, MAX_NESTING_DEPTH)
        } else {
            None
        }
    } else {
        None
    }
}

/// Where the first element starts in the array at `i`, if the array opens
/// at `i` and is not empty.
pub open spec fn spec_arr_first(s: Seq<char>, i: int) -> Option<int> {
    if 0 <= i && i < s.len() && s[i] == '[' {
        let k = spec_skip_ws(s, i + 1);
        if k < s.len() && s[k] != ']' {
            Some(k)
        } else {
            None
        }
    } else {
        None
    }
}

pub fn member_from(s: &Vec<char>, i: usize, key: &Vec<char>, depth: u32) -> (r: Option<usize>)
    requires
        i <= s@.len(),
    ensures
        (r matches Some(j) ==> spec_member_from(s@, i as int, key@, depth) == Some(j as int) && j
            <= s@.len()),
        (r is None ==> spec_member_from(s@, i as int, key@, depth) is None),
    decreases s@.len() - i,
{
    let n = s.len();
    if i >= n || s[i] != '"' {
        return None;
    }
    let p = match parse_string_body(s, i + 1) {
        Some(p) => p,
        None => {
            return None;
        },
    };
    let k = skip_ws(s, p.1);
    if !(k < n && s[k] == ':') {
        return None;
    }
    let m = skip_ws(s, k + 1);
    let ve = match parse_value(s, m, depth) {
        Some(v) => v,
        None => {
            return None;
        },
    };
    let k2 = skip_ws(s, ve);
    let rest = if k2 < n && s[k2] == ',' {
        let m2 = skip_ws(s, k2 + 1);
        member_from(s, m2, key, depth)
    } else {
        None
    };
    match rest {
        Some(j) => Some(j),
        None => {
            if chars_eq(&p.0, key) {
                Some(m)
            } else {
                None
            }
        },
    }
}

pub fn obj_member(s: &Vec<char>, i: usize, key: &Vec<char>) -> (r: Option<usize>)
    requires
        i <= s@.len(),
    ensures
        (r matches Some(j) ==> spec_obj_member(s@, i as int, key@) == Some(j as int) && j
            <= s@.len()),
        (r is None ==> spec_obj_member(s@, i as int, key@) is None),
{
    let n = s.len();
    if i >= n || s[i] != '{' {
        return None;
    }
    let k = skip_ws(s, i + 1);
    if k < n && s[k] == '"' {
        member_from(s, k, key, MAX_NESTING_DEPTH)
    } else {
        None
    }
}

pub fn arr_first(s: &Vec<char>, i: usize) -> (r: Option<usize>)
    requires
        i <= s@.len(),
    ensures
        (r matches Some(j) ==> spec_arr_first(s@, i as int) == Some(j as int) && j < s@.len()),
        (r is None ==> spec_arr_first(s@, i as int) is None),
{
    let n = s.len();
    if i >= n || s[i] != '[' {
        return None;
    }
    let k = skip_ws(s, i + 1);
    if k < n && s[k] != ']' {
        Some(k)
    } else {
        None
    }
}

} // verus!
