//! A parser for the query service's tabular JSON responses.
//!
//! The accepted shape is one JSON object; a `columns` member must be an
//! array of strings and a `data` member an array of arrays of strings,
//! either may be absent (defaulting to empty), a repeated `columns` or
//! `data` member is an error, and members under any other key are skipped
//! whatever JSON value they hold. Strings accept the single-character
//! escapes (`\"`, `\\`, `\/`, `\b`, `\f`, `\n`, `\r`, `\t`) and `\u`
//! escapes (surrogate pairs included, lone surrogates rejected), and
//! reject raw control bytes; skipped numbers follow the JSON number
//! grammar.
//!
//! The specification-level parser carries a fuel argument for termination;
//! the initial allowance of `8 * len + 32` is far more than one unit per
//! input byte, and every parsing step past a nesting or element boundary
//! consumes input, so fuel never runs out on an accepted input.

use vstd::prelude::*;

verus! {

pub open spec fn is_ws(b: u8) -> bool {
    b == 32 || b == 9 || b == 10 || b == 13
}

fn ws(b: u8) -> (r: bool)
    ensures
        r == is_ws(b),
{
    b == 32 || b == 9 || b == 10 || b == 13
}

pub open spec fn is_digit(b: u8) -> bool {
    48 <= b && b <= 57
}

fn digit(b: u8) -> (r: bool)
    ensures
        r == is_digit(b),
{
    48 <= b && b <= 57
}

/// The first position at or after `i` holding no whitespace byte.
pub open spec fn spec_skip_ws(s: Seq<u8>, i: int) -> int
    decreases s.len() - i,
{
    if 0 <= i < s.len() && is_ws(s[i]) {
        spec_skip_ws(s, i + 1)
    } else {
        i
    }
}

fn skip_ws(s: &[u8], i: usize) -> (r: usize)
    requires
        i <= s@.len(),
    ensures
        r as int == spec_skip_ws(s@, i as int),
        i <= r <= s@.len(),
{
    let mut j = i;
    while j < s.len() && ws(s[j])
        invariant
            i <= j <= s@.len(),
            spec_skip_ws(s@, i as int) == spec_skip_ws(s@, j as int),
        decreases s@.len() - j,
    {
        j = j + 1;
    }
    j
}

/// What a single-character escape after a backslash stands for.
pub open spec fn spec_escape_code(e: u8) -> Option<u8> {
    if e == 34 {
        Some(34u8)
    } else if e == 92 {
        Some(92u8)
    } else if e == 47 {
        Some(47u8)
    } else if e == 98 {
        Some(8u8)
    } else if e == 102 {
        Some(12u8)
    } else if e == 110 {
        Some(10u8)
    } else if e == 114 {
        Some(13u8)
    } else if e == 116 {
        Some(9u8)
    } else {
        None
    }
}

fn escape_code(e: u8) -> (r: Option<u8>)
    ensures
        r == spec_escape_code(e),
{
    if e == 34 {
        Some(34u8)
    } else if e == 92 {
        Some(92u8)
    } else if e == 47 {
        Some(47u8)
    } else if e == 98 {
        Some(8u8)
    } else if e == 102 {
        Some(12u8)
    } else if e == 110 {
        Some(10u8)
    } else if e == 114 {
        Some(13u8)
    } else if e == 116 {
        Some(9u8)
    } else {
        None
    }
}

/// The value of one hexadecimal digit, of either case.
pub open spec fn hex_val(b: u8) -> Option<u32> {
    if 48 <= b && b <= 57 {
        Some((b - 48) as u32)
    } else if 97 <= b && b <= 102 {
        Some((b - 87) as u32)
    } else if 65 <= b && b <= 70 {
        Some((b - 55) as u32)
    } else {
        None
    }
}

fn hex_digit_val(b: u8) -> (r: Option<u32>)
    ensures
        r == hex_val(b),
{
    if 48 <= b && b <= 57 {
        Some((b - 48) as u32)
    } else if 97 <= b && b <= 102 {
        Some((b - 87) as u32)
    } else if 65 <= b && b <= 70 {
        Some((b - 55) as u32)
    } else {
        None
    }
}

/// The value of the four hexadecimal digits at `i`.
pub open spec fn hex4_val(s: Seq<u8>, i: int) -> Option<u32> {
    if 0 <= i && i + 4 <= s.len() {
        match (hex_val(s[i]), hex_val(s[i + 1]), hex_val(s[i + 2]), hex_val(s[i + 3])) {
            (Some(a), Some(b), Some(c), Some(d)) => Some((a * 4096 + b * 256 + c * 16 + d) as u32),
            _ => None,
        }
    } else {
        None
    }
}

fn hex4(s: &[u8], i: usize) -> (r: Option<u32>)
    requires
        i <= s@.len(),
    ensures
        r == hex4_val(s@, i as int),
        r is Some ==> i + 4 <= s@.len(),
        r matches Some(v) ==> v < 0x10000,
{
    if s.len() - i >= 4 {
        match (hex_digit_val(s[i]), hex_digit_val(s[i + 1]), hex_digit_val(s[i + 2]), hex_digit_val(
            s[i + 3],
        )) {
            (Some(a), Some(b), Some(c), Some(d)) => Some(a * 4096 + b * 256 + c * 16 + d),
            _ => None,
        }
    } else {
        None
    }
}

/// The UTF-8 bytes of one scalar value.
pub open spec fn utf8_bytes_of(cp: int) -> Seq<u8>
    recommends
        0 <= cp < 0x110000,
{
    if cp < 0x80 {
        seq![cp as u8]
    } else if cp < 0x800 {
        seq![(192 + cp / 64) as u8, (128 + cp % 64) as u8]
    } else if cp < 0x10000 {
        seq![(224 + cp / 4096) as u8, (128 + (cp / 64) % 64) as u8, (128 + cp % 64) as u8]
    } else {
        seq![
            (240 + cp / 262144) as u8,
            (128 + (cp / 4096) % 64) as u8,
            (128 + (cp / 64) % 64) as u8,
            (128 + cp % 64) as u8,
        ]
    }
}

fn utf8_bytes(cp: u32) -> (r: Vec<u8>)
    requires
        cp < 0x110000,
    ensures
        r@ == utf8_bytes_of(cp as int),
{
    let mut v: Vec<u8> = Vec::new();
    if cp < 0x80 {
        v.push(cp as u8);
    } else if cp < 0x800 {
        v.push((192 + cp / 64) as u8);
        v.push((128 + cp % 64) as u8);
    } else if cp < 0x10000 {
        v.push((224 + cp / 4096) as u8);
        v.push((128 + (cp / 64) % 64) as u8);
        v.push((128 + cp % 64) as u8);
    } else {
        v.push((240 + cp / 262144) as u8);
        v.push((128 + (cp / 4096) % 64) as u8);
        v.push((128 + (cp / 64) % 64) as u8);
        v.push((128 + cp % 64) as u8);
    }
    assert(v@ =~= utf8_bytes_of(cp as int));
    v
}

/// Parses string content from `i`, which points just past the opening
/// quote; yields the unescaped bytes and the position after the closing
/// quote.
pub open spec fn spec_parse_string(s: Seq<u8>, i: int) -> Option<(Seq<u8>, int)>
    decreases s.len() - i,
{
    if i < 0 || i >= s.len() {
        None
    } else if s[i] == 34 {
        Some((Seq::empty(), i + 1))
    } else if s[i] == 92 {
        if i + 1 < s.len() {
            if s[i + 1] == 117 {
                match hex4_val(s, i + 2) {
                    Some(cu) => {
                        if 0xD800 <= cu < 0xDC00 {
                            // a high surrogate: a low surrogate escape must follow
                            if i + 12 <= s.len() && s[i + 6] == 92 && s[i + 7] == 117 {
                                match hex4_val(s, i + 8) {
                                    Some(lo) => if 0xDC00 <= lo < 0xE000 {
                                        let cp = 0x10000 + (cu - 0xD800) * 1024 + (lo - 0xDC00);
                                        match spec_parse_string(s, i + 12) {
                                            Some(p) => Some((utf8_bytes_of(cp) + p.0, p.1)),
                                            None => None,
                                        }
                                    } else {
                                        None
                                    },
                                    None => None,
                                }
                            } else {
                                None
                            }
                        } else if 0xDC00 <= cu < 0xE000 {
                            // a lone low surrogate
                            None
                        } else {
                            match spec_parse_string(s, i + 6) {
                                Some(p) => Some((utf8_bytes_of(cu as int) + p.0, p.1)),
                                None => None,
                            }
                        }
                    },
                    None => None,
                }
            } else {
                match spec_escape_code(s[i + 1]) {
                    Some(c) => match spec_parse_string(s, i + 2) {
                        Some(p) => Some((seq![c] + p.0, p.1)),
                        None => None,
                    },
                    None => None,
                }
            }
        } else {
            None
        }
    } else if s[i] >= 32 {
        match spec_parse_string(s, i + 1) {
            Some(p) => Some((seq![s[i]] + p.0, p.1)),
            None => None,
        }
    } else {
        None
    }
}

fn parse_string(s: &[u8], i: usize) -> (r: Option<(Vec<u8>, usize)>)
    requires
        i <= s@.len(),
    ensures
        r is Some <==> spec_parse_string(s@, i as int) is Some,
        r matches Some(p) ==> Some((p.0@, p.1 as int)) == spec_parse_string(s@, i as int) && i
            < p.1 <= s@.len(),
    decreases s@.len() - i,
{
    if i >= s.len() {
        None
    } else {
        let b = s[i];
        if b == 34 {
            Some((Vec::new(), i + 1))
        } else if b == 92 {
            if i + 1 < s.len() {
                if s[i + 1] == 117 {
                    match hex4(s, i + 2) {
                        Some(cu) => {
                            if 0xD800 <= cu && cu < 0xDC00 {
                                if s.len() - i >= 12 && s[i + 6] == 92 && s[i + 7] == 117 {
                                    match hex4(s, i + 8) {
                                        Some(lo) => {
                                            if 0xDC00 <= lo && lo < 0xE000 {
                                                let cp: u32 = 0x10000 + (cu - 0xD800) * 1024 + (lo
                                                    - 0xDC00);
                                                match parse_string(s, i + 12) {
                                                    Some((rest, j)) => {
                                                        let mut v = utf8_bytes(cp);
                                                        let mut tail = rest;
                                                        v.append(&mut tail);
                                                        assert(v@ =~= utf8_bytes_of(cp as int)
                                                            + spec_parse_string(
                                                            s@,
                                                            i as int + 12,
                                                        ).unwrap().0);
                                                        Some((v, j))
                                                    },
                                                    None => None,
                                                }
                                            } else {
                                                None
                                            }
                                        },
                                        None => None,
                                    }
                                } else {
                                    None
                                }
                            } else if 0xDC00 <= cu && cu < 0xE000 {
                                None
                            } else {
                                match parse_string(s, i + 6) {
                                    Some((rest, j)) => {
                                        let mut v = utf8_bytes(cu);
                                        let mut tail = rest;
                                        v.append(&mut tail);
                                        assert(v@ =~= utf8_bytes_of(cu as int) + spec_parse_string(
                                            s@,
                                            i as int + 6,
                                        ).unwrap().0);
                                        Some((v, j))
                                    },
                                    None => None,
                                }
                            }
                        },
                        None => None,
                    }
                } else {
                    match escape_code(s[i + 1]) {
                        Some(c) => match parse_string(s, i + 2) {
                            Some((rest, j)) => {
                                let mut v = rest;
                                v.insert(0, c);
                                assert(v@ =~= seq![c] + spec_parse_string(
                                    s@,
                                    i as int + 2,
                                ).unwrap().0);
                                Some((v, j))
                            },
                            None => None,
                        },
                        None => None,
                    }
                }
            } else {
                None
            }
        } else if b >= 32 {
            match parse_string(s, i + 1) {
                Some((rest, j)) => {
                    let mut v = rest;
                    v.insert(0, b);
                    assert(v@ =~= seq![b] + spec_parse_string(s@, i as int + 1).unwrap().0);
                    Some((v, j))
                },
                None => None,
            }
        } else {
            None
        }
    }
}

/// The first position at or after `i` holding no decimal digit.
pub open spec fn spec_digits_end(s: Seq<u8>, i: int) -> int
    decreases s.len() - i,
{
    if 0 <= i < s.len() && is_digit(s[i]) {
        spec_digits_end(s, i + 1)
    } else {
        i
    }
}

fn digits_end(s: &[u8], i: usize) -> (r: usize)
    requires
        i <= s@.len(),
    ensures
        r as int == spec_digits_end(s@, i as int),
        i <= r <= s@.len(),
{
    let mut j = i;
    while j < s.len() && digit(s[j])
        invariant
            i <= j <= s@.len(),
            spec_digits_end(s@, i as int) == spec_digits_end(s@, j as int),
        decreases s@.len() - j,
    {
        j = j + 1;
    }
    j
}

/// The integer part at `i`: one `0`, or a nonzero digit and a digit run.
pub open spec fn spec_int_end(s: Seq<u8>, i: int) -> Option<int> {
    if 0 <= i < s.len() && is_digit(s[i]) {
        if s[i] == 48 {
            Some(i + 1)
        } else {
            Some(spec_digits_end(s, i))
        }
    } else {
        None
    }
}

/// The end of the optional fraction part starting at `i`.
pub open spec fn spec_frac_end(s: Seq<u8>, i: int) -> Option<int> {
    if 0 <= i < s.len() && s[i] == 46 {
        if i + 1 < s.len() && is_digit(s[i + 1]) {
            Some(spec_digits_end(s, i + 1))
        } else {
            None
        }
    } else {
        Some(i)
    }
}

/// The end of the optional exponent part starting at `i`.
pub open spec fn spec_exp_end(s: Seq<u8>, i: int) -> Option<int> {
    if 0 <= i < s.len() && (s[i] == 101 || s[i] == 69) {
        let j = if i + 1 < s.len() && (s[i + 1] == 43 || s[i + 1] == 45) {
            i + 2
        } else {
            i + 1
        };
        if j < s.len() && is_digit(s[j]) {
            Some(spec_digits_end(s, j))
        } else {
            None
        }
    } else {
        Some(i)
    }
}

/// The end of one number at `i`, by the JSON number grammar: an optional
/// minus sign, an integer part without leading zeroes, an optional
/// fraction and an optional exponent.
pub open spec fn spec_number_end(s: Seq<u8>, i: int) -> Option<int> {
    let j0 = if 0 <= i < s.len() && s[i] == 45 {
        i + 1
    } else {
        i
    };
    match spec_int_end(s, j0) {
        Some(j1) => match spec_frac_end(s, j1) {
            Some(j2) => spec_exp_end(s, j2),
            None => None,
        },
        None => None,
    }
}

fn number_end(s: &[u8], i: usize) -> (r: Option<usize>)
    requires
        i <= s@.len(),
    ensures
        r is Some <==> spec_number_end(s@, i as int) is Some,
        r matches Some(j) ==> Some(j as int) == spec_number_end(s@, i as int) && j <= s@.len(),
{
    let j0 = if i < s.len() && s[i] == 45 {
        i + 1
    } else {
        i
    };
    if j0 < s.len() && digit(s[j0]) {
        let j1 = if s[j0] == 48 {
            j0 + 1
        } else {
            digits_end(s, j0)
        };
        let frac: Option<usize> = if j1 < s.len() && s[j1] == 46 {
            if j1 + 1 < s.len() && digit(s[j1 + 1]) {
                Some(digits_end(s, j1 + 1))
            } else {
                None
            }
        } else {
            Some(j1)
        };
        match frac {
            Some(j2) => {
                if j2 < s.len() && (s[j2] == 101 || s[j2] == 69) {
                    let j3 = if j2 + 1 < s.len() && (s[j2 + 1] == 43 || s[j2 + 1] == 45) {
                        j2 + 2
                    } else {
                        j2 + 1
                    };
                    if j3 < s.len() && digit(s[j3]) {
                        Some(digits_end(s, j3))
                    } else {
                        None
                    }
                } else {
                    Some(j2)
                }
            },
            None => None,
        }
    } else {
        None
    }
}

/// Skips one JSON value starting at `i` (no leading whitespace); yields
/// the position just after it.
pub open spec fn spec_skip_value(s: Seq<u8>, i: int, fuel: nat) -> Option<int>
    decreases fuel,
{
    if fuel == 0 {
        None
    } else if i < 0 || i >= s.len() {
        None
    } else {
        let b = s[i];
        if b == 34 {
            match spec_parse_string(s, i + 1) {
                Some(p) => Some(p.1),
                None => None,
            }
        } else if b == 116 {
            if s.len() - i >= 4 && s[i + 1] == 114 && s[i + 2] == 117 && s[i + 3] == 101 {
                Some(i + 4)
            } else {
                None
            }
        } else if b == 102 {
            if s.len() - i >= 5 && s[i + 1] == 97 && s[i + 2] == 108 && s[i + 3] == 115 && s[i + 4]
                == 101 {
                Some(i + 5)
            } else {
                None
            }
        } else if b == 110 {
            if s.len() - i >= 4 && s[i + 1] == 117 && s[i + 2] == 108 && s[i + 3] == 108 {
                Some(i + 4)
            } else {
                None
            }
        } else if b == 45 || is_digit(b) {
            spec_number_end(s, i)
        } else if b == 91 {
            let j = spec_skip_ws(s, i + 1);
            if j < s.len() && s[j] == 93 {
                Some(j + 1)
            } else {
                spec_skip_items(s, j, (fuel - 1) as nat)
            }
        } else if b == 123 {
            let j = spec_skip_ws(s, i + 1);
            if j < s.len() && s[j] == 125 {
                Some(j + 1)
            } else {
                spec_skip_members(s, j, (fuel - 1) as nat)
            }
        } else {
            None
        }
    }
}

/// Skips the elements of an array from the first element to the closing
/// bracket.
pub open spec fn spec_skip_items(s: Seq<u8>, i: int, fuel: nat) -> Option<int>
    decreases fuel,
{
    if fuel == 0 {
        None
    } else {
        match spec_skip_value(s, i, (fuel - 1) as nat) {
            Some(j) => {
                let k = spec_skip_ws(s, j);
                if k < s.len() && s[k] == 44 {
                    spec_skip_items(s, spec_skip_ws(s, k + 1), (fuel - 1) as nat)
                } else if k < s.len() && s[k] == 93 {
                    Some(k + 1)
                } else {
                    None
                }
            },
            None => None,
        }
    }
}

/// Skips the members of an object from the first key to the closing
/// brace.
pub open spec fn spec_skip_members(s: Seq<u8>, i: int, fuel: nat) -> Option<int>
    decreases fuel,
{
    if fuel == 0 {
        None
    } else if 0 <= i < s.len() && s[i] == 34 {
        match spec_parse_string(s, i + 1) {
            Some(kp) => {
                let k = spec_skip_ws(s, kp.1);
                if k < s.len() && s[k] == 58 {
                    match spec_skip_value(s, spec_skip_ws(s, k + 1), (fuel - 1) as nat) {
                        Some(j2) => {
                            let k2 = spec_skip_ws(s, j2);
                            if k2 < s.len() && s[k2] == 44 {
                                spec_skip_members(s, spec_skip_ws(s, k2 + 1), (fuel - 1) as nat)
                            } else if k2 < s.len() && s[k2] == 125 {
                                Some(k2 + 1)
                            } else {
                                None
                            }
                        },
                        None => None,
                    }
                } else {
                    None
                }
            },
            None => None,
        }
    } else {
        None
    }
}

fn skip_value(s: &[u8], i: usize, fuel: u128) -> (r: Option<usize>)
    requires
        i <= s@.len(),
    ensures
        r is Some <==> spec_skip_value(s@, i as int, fuel as nat) is Some,
        r matches Some(j) ==> Some(j as int) == spec_skip_value(s@, i as int, fuel as nat) && j
            <= s@.len(),
    decreases fuel,
{
    if fuel == 0 {
        None
    } else if i >= s.len() {
        None
    } else {
        let b = s[i];
        if b == 34 {
            match parse_string(s, i + 1) {
                Some((_c, j)) => Some(j),
                None => None,
            }
        } else if b == 116 {
            if s.len() - i >= 4 && s[i + 1] == 114 && s[i + 2] == 117 && s[i + 3] == 101 {
                Some(i + 4)
            } else {
                None
            }
        } else if b == 102 {
            if s.len() - i >= 5 && s[i + 1] == 97 && s[i + 2] == 108 && s[i + 3] == 115 && s[i + 4]
                == 101 {
                Some(i + 5)
            } else {
                None
            }
        } else if b == 110 {
            if s.len() - i >= 4 && s[i + 1] == 117 && s[i + 2] == 108 && s[i + 3] == 108 {
                Some(i + 4)
            } else {
                None
            }
        } else if b == 45 || digit(b) {
            number_end(s, i)
        } else if b == 91 {
            let j = skip_ws(s, i + 1);
            if j < s.len() && s[j] == 93 {
                Some(j + 1)
            } else {
                skip_items(s, j, fuel - 1)
            }
        } else if b == 123 {
            let j = skip_ws(s, i + 1);
            if j < s.len() && s[j] == 125 {
                Some(j + 1)
            } else {
                skip_members(s, j, fuel - 1)
            }
        } else {
            None
        }
    }
}

fn skip_items(s: &[u8], i: usize, fuel: u128) -> (r: Option<usize>)
    requires
        i <= s@.len(),
    ensures
        r is Some <==> spec_skip_items(s@, i as int, fuel as nat) is Some,
        r matches Some(j) ==> Some(j as int) == spec_skip_items(s@, i as int, fuel as nat) && j
            <= s@.len(),
    decreases fuel,
{
    if fuel == 0 {
        None
    } else {
        match skip_value(s, i, fuel - 1) {
            Some(j) => {
                let k = skip_ws(s, j);
                if k < s.len() && s[k] == 44 {
                    let n = skip_ws(s, k + 1);
                    skip_items(s, n, fuel - 1)
                } else if k < s.len() && s[k] == 93 {
                    Some(k + 1)
                } else {
                    None
                }
            },
            None => None,
        }
    }
}

fn skip_members(s: &[u8], i: usize, fuel: u128) -> (r: Option<usize>)
    requires
        i <= s@.len(),
    ensures
        r is Some <==> spec_skip_members(s@, i as int, fuel as nat) is Some,
        r matches Some(j) ==> Some(j as int) == spec_skip_members(s@, i as int, fuel as nat) && j
            <= s@.len(),
    decreases fuel,
{
    if fuel == 0 {
        None
    } else if i < s.len() && s[i] == 34 {
        match parse_string(s, i + 1) {
            Some((_key, j)) => {
                let k = skip_ws(s, j);
                if k < s.len() && s[k] == 58 {
                    let v = skip_ws(s, k + 1);
                    match skip_value(s, v, fuel - 1) {
                        Some(j2) => {
                            let k2 = skip_ws(s, j2);
                            if k2 < s.len() && s[k2] == 44 {
                                let n = skip_ws(s, k2 + 1);
                                skip_members(s, n, fuel - 1)
                            } else if k2 < s.len() && s[k2] == 125 {
                                Some(k2 + 1)
                            } else {
                                None
                            }
                        },
                        None => None,
                    }
                } else {
                    None
                }
            },
            None => None,
        }
    } else {
        None
    }
}

/// The sequence view of a vector of byte-string cells.
pub open spec fn cells_view(v: Seq<Vec<u8>>) -> Seq<Seq<u8>> {
    Seq::new(v.len(), |m: int| v[m]@)
}

/// The sequence view of a vector of rows of byte-string cells.
pub open spec fn rows_view(v: Seq<Vec<Vec<u8>>>) -> Seq<Seq<Seq<u8>>> {
    Seq::new(v.len(), |m: int| cells_view(v[m]@))
}

pub open spec fn opt_cells_view(v: Option<Vec<Vec<u8>>>) -> Option<Seq<Seq<u8>>> {
    match v {
        Some(x) => Some(cells_view(x@)),
        None => None,
    }
}

pub open spec fn opt_rows_view(v: Option<Vec<Vec<Vec<u8>>>>) -> Option<Seq<Seq<Seq<u8>>>> {
    match v {
        Some(x) => Some(rows_view(x@)),
        None => None,
    }
}

/// The bytes of the member key naming the column list.
pub open spec fn key_columns() -> Seq<u8> {
    seq![99u8, 111u8, 108u8, 117u8, 109u8, 110u8, 115u8]
}

/// The bytes of the member key naming the data rows.
pub open spec fn key_data() -> Seq<u8> {
    seq![100u8, 97u8, 116u8, 97u8]
}

fn bytes_eq(a: &[u8], b: &[u8]) -> (r: bool)
    ensures
        r == (a@ == b@),
{
    if a.len() != b.len() {
        assert(a@.len() != b@.len());
        return false;
    }
    let mut m: usize = 0;
    while m < a.len()
        invariant
            0 <= m <= a@.len(),
            a@.len() == b@.len(),
            forall|k: int| 0 <= k < m ==> a@[k] == b@[k],
        decreases a@.len() - m,
    {
        if a[m] != b[m] {
            return false;
        }
        m = m + 1;
    }
    assert(a@ =~= b@);
    true
}

fn key_columns_vec() -> (r: Vec<u8>)
    ensures
        r@ == key_columns(),
{
    let mut v: Vec<u8> = Vec::new();
    v.push(99);
    v.push(111);
    v.push(108);
    v.push(117);
    v.push(109);
    v.push(110);
    v.push(115);
    assert(v@ =~= key_columns());
    v
}

fn key_data_vec() -> (r: Vec<u8>)
    ensures
        r@ == key_data(),
{
    let mut v: Vec<u8> = Vec::new();
    v.push(100);
    v.push(97);
    v.push(116);
    v.push(97);
    assert(v@ =~= key_data());
    v
}

/// Parses the elements of an array of strings, from the first element to
/// the closing bracket.
pub open spec fn spec_parse_str_items(s: Seq<u8>, i: int, fuel: nat) -> Option<(Seq<Seq<u8>>, int)>
    decreases fuel,
{
    if fuel == 0 {
        None
    } else if 0 <= i < s.len() && s[i] == 34 {
        match spec_parse_string(s, i + 1) {
            Some(p) => {
                let k = spec_skip_ws(s, p.1);
                if k < s.len() && s[k] == 44 {
                    match spec_parse_str_items(s, spec_skip_ws(s, k + 1), (fuel - 1) as nat) {
                        Some(q) => Some((seq![p.0] + q.0, q.1)),
                        None => None,
                    }
                } else if k < s.len() && s[k] == 93 {
                    Some((seq![p.0], k + 1))
                } else {
                    None
                }
            },
            None => None,
        }
    } else {
        None
    }
}

/// Parses an array of strings; `i` points at the opening bracket.
pub open spec fn spec_parse_str_array(s: Seq<u8>, i: int, fuel: nat) -> Option<(Seq<Seq<u8>>, int)> {
    if 0 <= i < s.len() && s[i] == 91 {
        let j = spec_skip_ws(s, i + 1);
        if j < s.len() && s[j] == 93 {
            Some((Seq::empty(), j + 1))
        } else {
            spec_parse_str_items(s, j, fuel)
        }
    } else {
        None
    }
}

/// Parses the elements of an array of rows, each an array of strings.
pub open spec fn spec_parse_row_items(s: Seq<u8>, i: int, fuel: nat) -> Option<(
    Seq<Seq<Seq<u8>>>,
    int,
)>
    decreases fuel,
{
    if fuel == 0 {
        None
    } else {
        match spec_parse_str_array(s, i, (fuel - 1) as nat) {
            Some(p) => {
                let k = spec_skip_ws(s, p.1);
                if k < s.len() && s[k] == 44 {
                    match spec_parse_row_items(s, spec_skip_ws(s, k + 1), (fuel - 1) as nat) {
                        Some(q) => Some((seq![p.0] + q.0, q.1)),
                        None => None,
                    }
                } else if k < s.len() && s[k] == 93 {
                    Some((seq![p.0], k + 1))
                } else {
                    None
                }
            },
            None => None,
        }
    }
}

/// Parses an array of rows; `i` points at the opening bracket.
pub open spec fn spec_parse_row_array(s: Seq<u8>, i: int, fuel: nat) -> Option<(
    Seq<Seq<Seq<u8>>>,
    int,
)> {
    if 0 <= i < s.len() && s[i] == 91 {
        let j = spec_skip_ws(s, i + 1);
        if j < s.len() && s[j] == 93 {
            Some((Seq::empty(), j + 1))
        } else {
            spec_parse_row_items(s, j, fuel)
        }
    } else {
        None
    }
}

/// After one member's value ends at `j2`: a comma continues with the next
/// member, a closing brace ends the object.
pub open spec fn spec_after_member(
    s: Seq<u8>,
    j2: int,
    cols: Option<Seq<Seq<u8>>>,
    data: Option<Seq<Seq<Seq<u8>>>>,
    fuel: nat,
) -> Option<(Option<Seq<Seq<u8>>>, Option<Seq<Seq<Seq<u8>>>>, int)>
    decreases fuel,
{
    if fuel == 0 {
        None
    } else {
        let k2 = spec_skip_ws(s, j2);
        if k2 < s.len() && s[k2] == 44 {
            spec_parse_members(s, spec_skip_ws(s, k2 + 1), cols, data, (fuel - 1) as nat)
        } else if k2 < s.len() && s[k2] == 125 {
            Some((cols, data, k2 + 1))
        } else {
            None
        }
    }
}

/// Parses the members of the top-level object from the first key to the
/// closing brace. A `columns` member must be an array of strings and a
/// `data` member an array of rows; repeating either is an error; any
/// other member is skipped.
pub open spec fn spec_parse_members(
    s: Seq<u8>,
    i: int,
    cols: Option<Seq<Seq<u8>>>,
    data: Option<Seq<Seq<Seq<u8>>>>,
    fuel: nat,
) -> Option<(Option<Seq<Seq<u8>>>, Option<Seq<Seq<Seq<u8>>>>, int)>
    decreases fuel,
{
    if fuel == 0 {
        None
    } else if 0 <= i < s.len() && s[i] == 34 {
        match spec_parse_string(s, i + 1) {
            Some(kp) => {
                let k = spec_skip_ws(s, kp.1);
                if k < s.len() && s[k] == 58 {
                    let v = spec_skip_ws(s, k + 1);
                    if kp.0 == key_columns() {
                        if cols is Some {
                            None
                        } else {
                            match spec_parse_str_array(s, v, (fuel - 1) as nat) {
                                Some(p) => spec_after_member(
                                    s,
                                    p.1,
                                    Some(p.0),
                                    data,
                                    (fuel - 1) as nat,
                                ),
                                None => None,
                            }
                        }
                    } else if kp.0 == key_data() {
                        if data is Some {
                            None
                        } else {
                            match spec_parse_row_array(s, v, (fuel - 1) as nat) {
                                Some(p) => spec_after_member(
                                    s,
                                    p.1,
                                    cols,
                                    Some(p.0),
                                    (fuel - 1) as nat,
                                ),
                                None => None,
                            }
                        }
                    } else {
                        match spec_skip_value(s, v, (fuel - 1) as nat) {
                            Some(j2) => spec_after_member(s, j2, cols, data, (fuel - 1) as nat),
                            None => None,
                        }
                    }
                } else {
                    None
                }
            },
            None => None,
        }
    } else {
        None
    }
}

/// The fuel allowance for a whole input; generous, see the module note.
pub open spec fn table_fuel(s: Seq<u8>) -> nat {
    (8 * s.len() + 32) as nat
}

/// Parses a whole response body: one object, to the end of the input,
/// with `columns` and `data` defaulting to empty when absent.
pub open spec fn spec_parse_table(s: Seq<u8>) -> Option<(Seq<Seq<u8>>, Seq<Seq<Seq<u8>>>)> {
    let i = spec_skip_ws(s, 0);
    if 0 <= i < s.len() && s[i] == 123 {
        let j = spec_skip_ws(s, i + 1);
        if j < s.len() && s[j] == 125 {
            if spec_skip_ws(s, j + 1) == s.len() {
                Some((Seq::empty(), Seq::empty()))
            } else {
                None
            }
        } else {
            match spec_parse_members(s, j, None, None, table_fuel(s)) {
                Some(t) => {
                    if spec_skip_ws(s, t.2) == s.len() {
                        Some(
                            (
                                match t.0 {
                                    Some(c) => c,
                                    None => Seq::empty(),
                                },
                                match t.1 {
                                    Some(d) => d,
                                    None => Seq::empty(),
                                },
                            ),
                        )
                    } else {
                        None
                    }
                },
                None => None,
            }
        }
    } else {
        None
    }
}

fn parse_str_items(s: &[u8], i: usize, fuel: u128) -> (r: Option<(Vec<Vec<u8>>, usize)>)
    requires
        i <= s@.len(),
    ensures
        r is Some <==> spec_parse_str_items(s@, i as int, fuel as nat) is Some,
        r matches Some(p) ==> Some((cells_view(p.0@), p.1 as int)) == spec_parse_str_items(
            s@,
            i as int,
            fuel as nat,
        ) && p.1 <= s@.len(),
    decreases fuel,
{
    if fuel == 0 {
        None
    } else if i < s.len() && s[i] == 34 {
        match parse_string(s, i + 1) {
            Some((cell, j)) => {
                let k = skip_ws(s, j);
                if k < s.len() && s[k] == 44 {
                    let n = skip_ws(s, k + 1);
                    match parse_str_items(s, n, fuel - 1) {
                        Some((rest, j2)) => {
                            let ghost gcell = cell@;
                            let ghost grest = cells_view(rest@);
                            let mut v = rest;
                            v.insert(0, cell);
                            assert(cells_view(v@) =~= seq![gcell] + grest);
                            Some((v, j2))
                        },
                        None => None,
                    }
                } else if k < s.len() && s[k] == 93 {
                    let mut v: Vec<Vec<u8>> = Vec::new();
                    let ghost gcell = cell@;
                    v.push(cell);
                    assert(cells_view(v@) =~= seq![gcell]);
                    Some((v, k + 1))
                } else {
                    None
                }
            },
            None => None,
        }
    } else {
        None
    }
}

fn parse_str_array(s: &[u8], i: usize, fuel: u128) -> (r: Option<(Vec<Vec<u8>>, usize)>)
    requires
        i <= s@.len(),
    ensures
        r is Some <==> spec_parse_str_array(s@, i as int, fuel as nat) is Some,
        r matches Some(p) ==> Some((cells_view(p.0@), p.1 as int)) == spec_parse_str_array(
            s@,
            i as int,
            fuel as nat,
        ) && p.1 <= s@.len(),
{
    if i < s.len() && s[i] == 91 {
        let j = skip_ws(s, i + 1);
        if j < s.len() && s[j] == 93 {
            let v: Vec<Vec<u8>> = Vec::new();
            assert(cells_view(v@) =~= Seq::<Seq<u8>>::empty());
            Some((v, j + 1))
        } else {
            parse_str_items(s, j, fuel)
        }
    } else {
        None
    }
}

fn parse_row_items(s: &[u8], i: usize, fuel: u128) -> (r: Option<(Vec<Vec<Vec<u8>>>, usize)>)
    requires
        i <= s@.len(),
    ensures
        r is Some <==> spec_parse_row_items(s@, i as int, fuel as nat) is Some,
        r matches Some(p) ==> Some((rows_view(p.0@), p.1 as int)) == spec_parse_row_items(
            s@,
            i as int,
            fuel as nat,
        ) && p.1 <= s@.len(),
    decreases fuel,
{
    if fuel == 0 {
        None
    } else {
        match parse_str_array(s, i, fuel - 1) {
            Some((row, j)) => {
                let k = skip_ws(s, j);
                if k < s.len() && s[k] == 44 {
                    let n = skip_ws(s, k + 1);
                    match parse_row_items(s, n, fuel - 1) {
                        Some((rest, j2)) => {
                            let ghost grow = cells_view(row@);
                            let ghost grest = rows_view(rest@);
                            let mut v = rest;
                            v.insert(0, row);
                            assert(rows_view(v@) =~= seq![grow] + grest);
                            Some((v, j2))
                        },
                        None => None,
                    }
                } else if k < s.len() && s[k] == 93 {
                    let mut v: Vec<Vec<Vec<u8>>> = Vec::new();
                    let ghost grow = cells_view(row@);
                    v.push(row);
                    assert(rows_view(v@) =~= seq![grow]);
                    Some((v, k + 1))
                } else {
                    None
                }
            },
            None => None,
        }
    }
}

fn parse_row_array(s: &[u8], i: usize, fuel: u128) -> (r: Option<(Vec<Vec<Vec<u8>>>, usize)>)
    requires
        i <= s@.len(),
    ensures
        r is Some <==> spec_parse_row_array(s@, i as int, fuel as nat) is Some,
        r matches Some(p) ==> Some((rows_view(p.0@), p.1 as int)) == spec_parse_row_array(
            s@,
            i as int,
            fuel as nat,
        ) && p.1 <= s@.len(),
{
    if i < s.len() && s[i] == 91 {
        let j = skip_ws(s, i + 1);
        if j < s.len() && s[j] == 93 {
            let v: Vec<Vec<Vec<u8>>> = Vec::new();
            assert(rows_view(v@) =~= Seq::<Seq<Seq<u8>>>::empty());
            Some((v, j + 1))
        } else {
            parse_row_items(s, j, fuel)
        }
    } else {
        None
    }
}

fn after_member(
    s: &[u8],
    j2: usize,
    cols: Option<Vec<Vec<u8>>>,
    data: Option<Vec<Vec<Vec<u8>>>>,
    fuel: u128,
) -> (r: Option<(Option<Vec<Vec<u8>>>, Option<Vec<Vec<Vec<u8>>>>, usize)>)
    requires
        j2 <= s@.len(),
    ensures
        r is Some <==> spec_after_member(
            s@,
            j2 as int,
            opt_cells_view(cols),
            opt_rows_view(data),
            fuel as nat,
        ) is Some,
        r matches Some(t) ==> Some((opt_cells_view(t.0), opt_rows_view(t.1), t.2 as int))
            == spec_after_member(
            s@,
            j2 as int,
            opt_cells_view(cols),
            opt_rows_view(data),
            fuel as nat,
        ) && t.2 <= s@.len(),
    decreases fuel,
{
    if fuel == 0 {
        None
    } else {
        let k2 = skip_ws(s, j2);
        if k2 < s.len() && s[k2] == 44 {
            let n = skip_ws(s, k2 + 1);
            parse_members(s, n, cols, data, fuel - 1)
        } else if k2 < s.len() && s[k2] == 125 {
            Some((cols, data, k2 + 1))
        } else {
            None
        }
    }
}

fn parse_members(
    s: &[u8],
    i: usize,
    cols: Option<Vec<Vec<u8>>>,
    data: Option<Vec<Vec<Vec<u8>>>>,
    fuel: u128,
) -> (r: Option<(Option<Vec<Vec<u8>>>, Option<Vec<Vec<Vec<u8>>>>, usize)>)
    requires
        i <= s@.len(),
    ensures
        r is Some <==> spec_parse_members(
            s@,
            i as int,
            opt_cells_view(cols),
            opt_rows_view(data),
            fuel as nat,
        ) is Some,
        r matches Some(t) ==> Some((opt_cells_view(t.0), opt_rows_view(t.1), t.2 as int))
            == spec_parse_members(
            s@,
            i as int,
            opt_cells_view(cols),
            opt_rows_view(data),
            fuel as nat,
        ) && t.2 <= s@.len(),
    decreases fuel,
{
    if fuel == 0 {
        None
    } else if i < s.len() && s[i] == 34 {
        match parse_string(s, i + 1) {
            Some((key, j)) => {
                let k = skip_ws(s, j);
                if k < s.len() && s[k] == 58 {
                    let v = skip_ws(s, k + 1);
                    let kc = key_columns_vec();
                    let kd = key_data_vec();
                    if bytes_eq(key.as_slice(), kc.as_slice()) {
                        if cols.is_some() {
                            None
                        } else {
                            match parse_str_array(s, v, fuel - 1) {
                                Some((cs, j2)) => after_member(s, j2, Some(cs), data, fuel - 1),
                                None => None,
                            }
                        }
                    } else if bytes_eq(key.as_slice(), kd.as_slice()) {
                        if data.is_some() {
                            None
                        } else {
                            match parse_row_array(s, v, fuel - 1) {
                                Some((rs, j2)) => after_member(s, j2, cols, Some(rs), fuel - 1),
                                None => None,
                            }
                        }
                    } else {
                        match skip_value(s, v, fuel - 1) {
                            Some(j2) => after_member(s, j2, cols, data, fuel - 1),
                            None => None,
                        }
                    }
                } else {
                    None
                }
            },
            None => None,
        }
    } else {
        None
    }
}

/// Parses a whole response body into the column names and data rows;
/// `None` exactly where the specification-level parser rejects it.
pub fn parse_table(s: &[u8]) -> (r: Option<(Vec<Vec<u8>>, Vec<Vec<Vec<u8>>>)>)
    ensures
        r is Some <==> spec_parse_table(s@) is Some,
        r matches Some(t) ==> Some((cells_view(t.0@), rows_view(t.1@))) == spec_parse_table(s@),
{
    let fuel: u128 = 8 * (s.len() as u128) + 32;
    assert(fuel as nat == table_fuel(s@));
    let i = skip_ws(s, 0);
    if i < s.len() && s[i] == 123 {
        let j = skip_ws(s, i + 1);
        if j < s.len() && s[j] == 125 {
            let e = skip_ws(s, j + 1);
            if e == s.len() {
                let c: Vec<Vec<u8>> = Vec::new();
                let d: Vec<Vec<Vec<u8>>> = Vec::new();
                assert(cells_view(c@) =~= Seq::<Seq<u8>>::empty());
                assert(rows_view(d@) =~= Seq::<Seq<Seq<u8>>>::empty());
                Some((c, d))
            } else {
                None
            }
        } else {
            match parse_members(s, j, None, None, fuel) {
                Some((cs, ds, end)) => {
                    let e = skip_ws(s, end);
                    if e == s.len() {
                        let c: Vec<Vec<u8>> = match cs {
                            Some(c) => c,
                            None => {
                                let v: Vec<Vec<u8>> = Vec::new();
                                assert(cells_view(v@) =~= Seq::<Seq<u8>>::empty());
                                v
                            },
                        };
                        let d: Vec<Vec<Vec<u8>>> = match ds {
                            Some(d) => d,
                            None => {
                                let v: Vec<Vec<Vec<u8>>> = Vec::new();
                                assert(rows_view(v@) =~= Seq::<Seq<Seq<u8>>>::empty());
                                v
                            },
                        };
                        Some((c, d))
                    } else {
                        None
                    }
                },
                None => None,
            }
        }
    } else {
        None
    }
}

} // verus!
