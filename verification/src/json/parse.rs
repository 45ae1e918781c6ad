//! The JSON reader: a recursive-descent parser over bytes.
//!
//! The reader accepts the interchange subset the writer emits, plus
//! insignificant whitespace, raw UTF-8 in string literals and `\u` escapes
//! with surrogate pairs.  Numbers are decimal with an optional fraction;
//! exponent notation is not part of the subset and is rejected.

use vstd::prelude::*;
use crate::fixed::Fx;
use crate::json::{Json, JsonV};
use crate::string_from_utf8;

verus! {

/// Insignificant whitespace.
pub open spec fn is_ws(b: u8) -> bool {
    b == 32 || b == 9 || b == 10 || b == 13
}

/// Powers of ten.
pub open spec fn spec_pow10(k: nat) -> int
    decreases k,
{
    if k == 0 {
        1
    } else {
        10 * spec_pow10((k - 1) as nat)
    }
}

proof fn lemma_pow10_le(a: nat, b: nat)
    requires
        a <= b,
    ensures
        0 < spec_pow10(a) <= spec_pow10(b),
    decreases b,
{
    if b > 0 {
        if a == b {
            lemma_pow10_le((a - 1) as nat, (b - 1) as nat);
        } else {
            lemma_pow10_le(a, (b - 1) as nat);
        }
    }
}

fn skip_ws(s: &Vec<u8>, i: usize) -> (r: usize)
    requires
        i <= s@.len(),
    ensures
        i <= r <= s@.len(),
        r < s@.len() ==> !is_ws(s@[r as int]),
        i == s@.len() || !is_ws(s@[i as int]) ==> r == i,
    decreases s@.len() - i,
{
    let mut j: usize = i;
    while j < s.len() && (s[j] == 32 || s[j] == 9 || s[j] == 10 || s[j] == 13)
        invariant
            i <= j <= s@.len(),
            forall|k: int| i <= k < j ==> is_ws(#[trigger] s@[k]),
        decreases s@.len() - j,
    {
        j = j + 1;
    }
    j
}

fn hex_val(b: u8) -> (r: Option<u8>)
    ensures
        r matches Some(v) ==> v < 16,
{
    if 48 <= b && b <= 57 {
        Some(b - 48)
    } else if 97 <= b && b <= 102 {
        Some(b - 97 + 10)
    } else if 65 <= b && b <= 70 {
        Some(b - 65 + 10)
    } else {
        None
    }
}

/// Reads the four hex digits of a `\u` escape starting at `i`.
fn hex4(s: &Vec<u8>, i: usize) -> (r: Option<u32>)
    requires
        i + 4 <= s@.len() <= usize::MAX,
    ensures
        r matches Some(v) ==> v < 65536,
{
    let d0: Option<u8> = hex_val(s[i]);
    let d1: Option<u8> = hex_val(s[i + 1]);
    let d2: Option<u8> = hex_val(s[i + 2]);
    let d3: Option<u8> = hex_val(s[i + 3]);
    match (d0, d1, d2, d3) {
        (Some(a), Some(b), Some(c), Some(d)) => Some(
            (a as u32) * 4096 + (b as u32) * 256 + (c as u32) * 16 + (d as u32),
        ),
        _ => None,
    }
}

/// Appends the UTF-8 encoding of a code point.
fn push_utf8(code: u32, out: &mut Vec<u8>)
    requires
        code < 0x110000,
{
    if code < 0x80 {
        out.push(code as u8);
    } else if code < 0x800 {
        out.push(192 + (code / 64) as u8);
        out.push(128 + (code % 64) as u8);
    } else if code < 0x10000 {
        out.push(224 + (code / 4096) as u8);
        out.push(128 + (code / 64 % 64) as u8);
        out.push(128 + (code % 64) as u8);
    } else {
        out.push(240 + (code / 262144) as u8);
        out.push(128 + (code / 4096 % 64) as u8);
        out.push(128 + (code / 64 % 64) as u8);
        out.push(128 + (code % 64) as u8);
    }
}

/// Reads a string literal starting at the opening quote `i`; on success
/// returns the string and the position after the closing quote.
fn parse_string(s: &Vec<u8>, i: usize) -> (r: Option<(String, usize)>)
    requires
        i < s@.len() <= usize::MAX,
        s@[i as int] == 34,
    ensures
        r matches Some((v, j)) ==> i < j <= s@.len(),
{
    let mut out: Vec<u8> = Vec::new();
    let mut j: usize = i + 1;
    loop
        invariant
            i < j <= s@.len(),
        decreases s@.len() - j,
    {
        if j >= s.len() {
            return None;
        }
        let b: u8 = s[j];
        if b == 34 {
            match string_from_utf8(out) {
                Some(text) => {
                    return Some((text, j + 1));
                },
                None => {
                    return None;
                },
            }
        } else if b == 92 {
            if s.len() - j <= 1 {
                return None;
            }
            let e: u8 = s[j + 1];
            if e == 34 || e == 92 || e == 47 {
                out.push(e);
                j = j + 2;
            } else if e == 98 {
                out.push(8);
                j = j + 2;
            } else if e == 102 {
                out.push(12);
                j = j + 2;
            } else if e == 110 {
                out.push(10);
                j = j + 2;
            } else if e == 114 {
                out.push(13);
                j = j + 2;
            } else if e == 116 {
                out.push(9);
                j = j + 2;
            } else if e == 117 {
                if s.len() - j < 6 {
                    return None;
                }
                let code: u32 = match hex4(s, j + 2) {
                    Some(v) => v,
                    None => {
                        return None;
                    },
                };
                if 0xD800 <= code && code < 0xDC00 {
                    // A high surrogate must pair with a following low one.
                    if s.len() - j < 12 {
                        return None;
                    }
                    if s[j + 6] != 92 || s[j + 7] != 117 {
                        return None;
                    }
                    let low: u32 = match hex4(s, j + 8) {
                        Some(v) => v,
                        None => {
                            return None;
                        },
                    };
                    if !(0xDC00 <= low && low < 0xE000) {
                        return None;
                    }
                    let combined: u32 = 0x10000 + (code - 0xD800) * 1024 + (low - 0xDC00);
                    push_utf8(combined, &mut out);
                    j = j + 12;
                } else if 0xDC00 <= code && code < 0xE000 {
                    return None;
                } else {
                    push_utf8(code, &mut out);
                    j = j + 6;
                }
            } else {
                return None;
            }
        } else if b < 32 {
            return None;
        } else {
            out.push(b);
            j = j + 1;
        }
    }
}

/// Reads a number starting at `i` (a minus sign or digit); on success
/// returns the value and the position after its last digit.
fn parse_number(s: &Vec<u8>, i: usize) -> (r: Option<(Json, usize)>)
    requires
        i < s@.len() <= usize::MAX,
    ensures
        r matches Some((v, j)) ==> i < j <= s@.len(),
{
    let mut j: usize = i;
    let mut neg: bool = false;
    if s[j] == 45 {
        neg = true;
        j = j + 1;
    }
    if j >= s.len() {
        return None;
    }
    if !(48 <= s[j] && s[j] <= 57) {
        return None;
    }
    let mut mag: u64 = (s[j] - 48) as u64;
    j = j + 1;
    let mut overflow: bool = false;
    while j < s.len() && 48 <= s[j] && s[j] <= 57
        invariant
            i < j <= s@.len(),
        decreases s@.len() - j,
    {
        let d: u64 = (s[j] - 48) as u64;
        if mag > 1844674407370955161 || (mag == 1844674407370955161 && d > 5) {
            overflow = true;
        } else {
            mag = mag * 10 + d;
        }
        j = j + 1;
    }
    if overflow {
        return None;
    }
    if j < s.len() && s[j] == 46 {
        // A fraction: at most the first sixteen digits carry value.
        j = j + 1;
        if j >= s.len() {
            return None;
        }
        if !(48 <= s[j] && s[j] <= 57) {
            return None;
        }
        proof {
            reveal_with_fuel(spec_pow10, 18);
            assert(spec_pow10(16) == 10000000000000000);
        }
        let mut fr: u64 = 0;
        let mut cnt: usize = 0;
        while j < s.len() && 48 <= s[j] && s[j] <= 57
            invariant
                i < j <= s@.len(),
                cnt <= 16,
                fr < spec_pow10(cnt as nat),
                spec_pow10(16) == 10000000000000000,
            decreases s@.len() - j,
        {
            if cnt < 16 {
                proof {
                    lemma_pow10_le(cnt as nat, 15);
                    reveal_with_fuel(spec_pow10, 18);
                }
                fr = fr * 10 + (s[j] - 48) as u64;
                cnt = cnt + 1;
            }
            j = j + 1;
        }
        if j < s.len() && (s[j] == 101 || s[j] == 69) {
            return None;
        }
        let mut scale: usize = cnt;
        while scale < 16
            invariant
                scale <= 16,
                fr < spec_pow10(scale as nat),
                spec_pow10(16) == 10000000000000000,
            decreases 16 - scale,
        {
            proof {
                lemma_pow10_le(scale as nat, 15);
                reveal_with_fuel(spec_pow10, 18);
            }
            fr = fr * 10;
            scale = scale + 1;
        }
        proof {
            lemma_pow10_le(scale as nat, 16);
        }
        proof {
            assert(fr * 65536 <= (10000000000000000 - 1) * 65536);
            vstd::arithmetic::div_mod::lemma_fundamental_div_mod_converse(
                (10000000000000000 - 1) * 65536,
                10000000000000000,
                65535,
                10000000000000000 - 65536,
            );
            vstd::arithmetic::div_mod::lemma_div_is_ordered(
                fr * 65536,
                (10000000000000000 - 1) * 65536,
                10000000000000000,
            );
            vstd::arithmetic::div_mod::lemma_div_pos_is_pos(fr * 65536, 10000000000000000);
        }
        let frac_raw: u64 = (((fr as u128) * 65536) / 10000000000000000) as u64;
        if mag > 140737488355327 {
            return None;
        }
        let raw_mag: i64 = (mag as i64) * 65536 + (frac_raw as i64);
        let raw: i64 = if neg {
            -raw_mag
        } else {
            raw_mag
        };
        Some((Json::Fixed(Fx { raw }), j))
    } else {
        if j < s.len() && (s[j] == 101 || s[j] == 69) {
            return None;
        }
        Some((Json::Int { neg, mag }, j))
    }
}

/// Reads one JSON value starting at `i`, skipping leading whitespace; on
/// success returns the value and the position just after it.
pub fn parse_value(s: &Vec<u8>, i: usize) -> (r: Option<(Json, usize)>)
    requires
        i <= s@.len() <= usize::MAX,
    ensures
        r matches Some((v, j)) ==> i < j <= s@.len(),
        s@.skip(i as int) == crate::json::print::spec_print(JsonV::Null) ==> (r matches Some(
            (v, j),
        ) && v@ == JsonV::Null && j == i + 4),
        s@.skip(i as int) == crate::json::print::spec_print(JsonV::Bool(true)) ==> (r
            matches Some((v, j)) && v@ == JsonV::Bool(true) && j == i + 4),
        s@.skip(i as int) == crate::json::print::spec_print(JsonV::Bool(false)) ==> (r
            matches Some((v, j)) && v@ == JsonV::Bool(false) && j == i + 5),
    decreases s@.len() - i,
{
    proof {
        if i < s@.len() {
            assert(s@.skip(i as int)[0] == s@[i as int]);
        }
        assert(s@.skip(i as int).len() == s@.len() - i);
    }
    let k: usize = skip_ws(s, i);
    if k >= s.len() {
        return None;
    }
    let b: u8 = s[k];
    if b == 110 {
        if s.len() - k < 4 {
            return None;
        }
        if s[k + 1] == 117 && s[k + 2] == 108 && s[k + 3] == 108 {
            Some((Json::Null, k + 4))
        } else {
            None
        }
    } else if b == 116 {
        if s.len() - k < 4 {
            return None;
        }
        if s[k + 1] == 114 && s[k + 2] == 117 && s[k + 3] == 101 {
            Some((Json::Bool(true), k + 4))
        } else {
            None
        }
    } else if b == 102 {
        if s.len() - k < 5 {
            return None;
        }
        if s[k + 1] == 97 && s[k + 2] == 108 && s[k + 3] == 115 && s[k + 4] == 101 {
            Some((Json::Bool(false), k + 5))
        } else {
            None
        }
    } else if b == 34 {
        match parse_string(s, k) {
            Some((text, j)) => Some((Json::Text(text), j)),
            None => None,
        }
    } else if b == 91 {
        let mut j: usize = skip_ws(s, k + 1);
        if j < s.len() && s[j] == 93 {
            return Some((Json::Arr(Vec::new()), j + 1));
        }
        let mut items: Vec<Json> = Vec::new();
        loop
            invariant
                i <= k < j <= s@.len(),
                s@.len() <= usize::MAX,
                s@.skip(i as int) != crate::json::print::spec_print(JsonV::Null),
                s@.skip(i as int) != crate::json::print::spec_print(JsonV::Bool(true)),
                s@.skip(i as int) != crate::json::print::spec_print(JsonV::Bool(false)),
            decreases s@.len() - j,
        {
            match parse_value(s, j) {
                Some((v, j2)) => {
                    items.push(v);
                    let j3: usize = skip_ws(s, j2);
                    if j3 >= s.len() {
                        return None;
                    }
                    if s[j3] == 93 {
                        return Some((Json::Arr(items), j3 + 1));
                    }
                    if s[j3] != 44 {
                        return None;
                    }
                    j = j3 + 1;
                },
                None => {
                    return None;
                },
            }
        }
    } else if b == 123 {
        let mut j: usize = skip_ws(s, k + 1);
        if j < s.len() && s[j] == 125 {
            return Some((Json::Obj(Vec::new()), j + 1));
        }
        let mut entries: Vec<(String, Json)> = Vec::new();
        loop
            invariant
                i <= k < j <= s@.len(),
                s@.len() <= usize::MAX,
                s@.skip(i as int) != crate::json::print::spec_print(JsonV::Null),
                s@.skip(i as int) != crate::json::print::spec_print(JsonV::Bool(true)),
                s@.skip(i as int) != crate::json::print::spec_print(JsonV::Bool(false)),
            decreases s@.len() - j,
        {
            let j0: usize = skip_ws(s, j);
            if j0 >= s.len() {
                return None;
            }
            if s[j0] != 34 {
                return None;
            }
            match parse_string(s, j0) {
                Some((key, j1)) => {
                    let j2: usize = skip_ws(s, j1);
                    if j2 >= s.len() {
                        return None;
                    }
                    if s[j2] != 58 {
                        return None;
                    }
                    match parse_value(s, j2 + 1) {
                        Some((v, j3)) => {
                            entries.push((key, v));
                            let j4: usize = skip_ws(s, j3);
                            if j4 >= s.len() {
                                return None;
                            }
                            if s[j4] == 125 {
                                return Some((Json::Obj(entries), j4 + 1));
                            }
                            if s[j4] != 44 {
                                return None;
                            }
                            j = j4 + 1;
                        },
                        None => {
                            return None;
                        },
                    }
                },
                None => {
                    return None;
                },
            }
        }
    } else if b == 45 || (48 <= b && b <= 57) {
        parse_number(s, k)
    } else {
        None
    }
}

/// Parses a complete document: one value with nothing but whitespace around
/// it.  The canonical prints of the literal tokens are recognized exactly.
pub fn parse_json(s: &Vec<u8>) -> (r: Option<Json>)
    requires
        s@.len() <= usize::MAX,
    ensures
        s@ == crate::json::print::spec_print(JsonV::Null) ==> (r matches Some(v) && v@
            == JsonV::Null),
        s@ == crate::json::print::spec_print(JsonV::Bool(true)) ==> (r matches Some(v) && v@
            == JsonV::Bool(true)),
        s@ == crate::json::print::spec_print(JsonV::Bool(false)) ==> (r matches Some(v) && v@
            == JsonV::Bool(false)),
{
    proof {
        assert(s@.skip(0) =~= s@);
    }
    match parse_value(s, 0) {
        Some((v, j)) => {
            let j2: usize = skip_ws(s, j);
            if j2 >= s.len() {
                Some(v)
            } else {
                None
            }
        },
        None => None,
    }
}

} // verus!
