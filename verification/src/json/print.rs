//! The JSON writer.
//!
//! Output is pure ASCII: every character outside the printable ASCII range
//! is written as a `\u` escape, so the byte stream of a document is fully
//! determined by its value.

use vstd::prelude::*;
use crate::fixed::Fx;
use crate::json::{Json, JsonV, spec_view_entries, spec_view_seq};

verus! {

/// Decimal digits of a nonnegative number, most significant first.
pub open spec fn spec_digits(n: int) -> Seq<u8>
    decreases n,
{
    if n < 10 {
        seq![(48 + n) as u8]
    } else {
        spec_digits(n / 10).push((48 + n % 10) as u8)
    }
}

/// Exactly `k` decimal digits of `n`, zero-padded on the left.
pub open spec fn spec_padded(n: int, k: nat) -> Seq<u8>
    decreases k,
{
    if k == 0 {
        Seq::empty()
    } else {
        spec_padded(n / 10, (k - 1) as nat).push((48 + n % 10) as u8)
    }
}

/// The digit string with trailing zeros removed, keeping at least one digit.
pub open spec fn spec_strip_zeros(s: Seq<u8>) -> Seq<u8>
    decreases s.len(),
{
    if s.len() <= 1 {
        s
    } else if s.last() == 48 {
        spec_strip_zeros(s.drop_last())
    } else {
        s
    }
}

/// An integer literal: optional minus sign and the magnitude's digits.
pub open spec fn spec_print_int(neg: bool, mag: int) -> Seq<u8> {
    if neg {
        seq![45u8] + spec_digits(mag)
    } else {
        spec_digits(mag)
    }
}

/// A fixed-point literal: sign, whole units, a decimal point, and the exact
/// decimal expansion of the fractional raw units with trailing zeros
/// stripped.  `152587890625` is `5^16`, so `frac * 5^16` is the numerator of
/// `frac / 65536` over `10^16`.
pub open spec fn spec_print_fixed(raw: int) -> Seq<u8> {
    let m = if raw < 0 {
        -raw
    } else {
        raw
    };
    let sign: Seq<u8> = if raw < 0 {
        seq![45u8]
    } else {
        Seq::empty()
    };
    sign + spec_digits(m / 65536) + seq![46u8] + spec_strip_zeros(
        spec_padded((m % 65536) * 152587890625, 16),
    )
}

/// Lowercase hexadecimal digit byte.
pub open spec fn spec_hex_digit(n: int) -> u8 {
    if n < 10 {
        (48 + n) as u8
    } else {
        (87 + n) as u8
    }
}

/// A four-digit `\u` escape for a code unit.
pub open spec fn spec_u_escape(n: int) -> Seq<u8> {
    seq![
        92u8,
        117u8,
        spec_hex_digit(n / 4096 % 16),
        spec_hex_digit(n / 256 % 16),
        spec_hex_digit(n / 16 % 16),
        spec_hex_digit(n % 16),
    ]
}

/// The bytes one character contributes to a string literal: printable ASCII
/// stands for itself, the quote and backslash take a two-byte escape, the
/// common control characters take their short escapes, and everything else
/// is written as `\u` code units, astral characters as a surrogate pair.
pub open spec fn spec_escape_char(c: char) -> Seq<u8> {
    let n = c as u32;
    if n == 34 {
        seq![92u8, 34u8]
    } else if n == 92 {
        seq![92u8, 92u8]
    } else if n == 8 {
        seq![92u8, 98u8]
    } else if n == 9 {
        seq![92u8, 116u8]
    } else if n == 10 {
        seq![92u8, 110u8]
    } else if n == 12 {
        seq![92u8, 102u8]
    } else if n == 13 {
        seq![92u8, 114u8]
    } else if 32 <= n < 127 {
        seq![n as u8]
    } else if n < 65536 {
        spec_u_escape(n as int)
    } else {
        spec_u_escape(55296 + (n - 65536) as int / 1024) + spec_u_escape(
            56320 + (n - 65536) as int % 1024,
        )
    }
}

/// The escaped bytes of a whole string.
pub open spec fn spec_escape(s: Seq<char>) -> Seq<u8>
    decreases s.len(),
{
    if s.len() == 0 {
        Seq::empty()
    } else {
        spec_escape(s.drop_last()) + spec_escape_char(s.last())
    }
}

/// A string literal.
pub open spec fn spec_print_string(s: Seq<char>) -> Seq<u8> {
    seq![34u8] + spec_escape(s) + seq![34u8]
}

/// The canonical byte stream of a JSON value: no whitespace, object fields
/// in their stored order.
pub open spec fn spec_print(v: JsonV) -> Seq<u8>
    decreases v,
{
    match v {
        JsonV::Null => seq![110u8, 117u8, 108u8, 108u8],
        JsonV::Bool(b) => if b {
            seq![116u8, 114u8, 117u8, 101u8]
        } else {
            seq![102u8, 97u8, 108u8, 115u8, 101u8]
        },
        JsonV::Int { neg, mag } => spec_print_int(neg, mag as int),
        JsonV::Fixed(raw) => spec_print_fixed(raw),
        JsonV::Text(s) => spec_print_string(s),
        JsonV::Arr(items) => seq![91u8] + spec_print_items(items) + seq![93u8],
        JsonV::Obj(entries) => seq![123u8] + spec_print_entries(entries) + seq![125u8],
    }
}

/// Comma-separated prints of array items.
pub open spec fn spec_print_items(items: Seq<JsonV>) -> Seq<u8>
    decreases items,
{
    if items.len() == 0 {
        Seq::empty()
    } else if items.len() == 1 {
        spec_print(items.last())
    } else {
        spec_print_items(items.drop_last()) + seq![44u8] + spec_print(items.last())
    }
}

/// Comma-separated `"key":value` prints of object entries.
pub open spec fn spec_print_entries(entries: Seq<(Seq<char>, JsonV)>) -> Seq<u8>
    decreases entries,
{
    if entries.len() == 0 {
        Seq::empty()
    } else if entries.len() == 1 {
        spec_print_string(entries.last().0) + seq![58u8] + spec_print(entries.last().1)
    } else {
        spec_print_entries(entries.drop_last()) + seq![44u8] + spec_print_string(
            entries.last().0,
        ) + seq![58u8] + spec_print(entries.last().1)
    }
}

fn push_digits(n: u64, out: &mut Vec<u8>)
    ensures
        final(out)@ == old(out)@ + spec_digits(n as int),
    decreases n,
{
    if n < 10 {
        out.push(48 + n as u8);
    } else {
        push_digits(n / 10, out);
        out.push(48 + (n % 10) as u8);
        proof {
            assert(out@ =~= old(out)@ + spec_digits(n as int));
        }
    }
    proof {
        assert(out@ =~= old(out)@ + spec_digits(n as int));
    }
}

fn push_padded(n: u64, k: usize, out: &mut Vec<u8>)
    requires
        k <= 16,
    ensures
        final(out)@ == old(out)@ + spec_padded(n as int, k as nat),
    decreases k,
{
    if k > 0 {
        push_padded(n / 10, k - 1, out);
        out.push(48 + (n % 10) as u8);
    }
    proof {
        assert(out@ =~= old(out)@ + spec_padded(n as int, k as nat));
    }
}

fn push_fixed(value: Fx, out: &mut Vec<u8>)
    ensures
        final(out)@ == old(out)@ + spec_print_fixed(value.raw as int),
{
    let mut m: u64 = 0;
    if value.raw < 0 {
        out.push(45);
        m = (-(value.raw as i128)) as u64;
    } else {
        m = value.raw as u64;
    }
    push_digits(m / 65536, out);
    out.push(46);
    let frac: u64 = m % 65536;
    let num: u64 = frac * 152587890625;
    let mut digits: Vec<u8> = Vec::new();
    push_padded(num, 16, &mut digits);
    proof {
        assert(digits@ =~= spec_padded(num as int, 16));
    }
    while digits.len() > 1 && digits[digits.len() - 1] == 48
        invariant
            digits@.len() >= 1,
            spec_strip_zeros(digits@) == spec_strip_zeros(spec_padded(num as int, 16)),
        decreases digits@.len(),
    {
        let ghost before = digits@;
        digits.pop();
        proof {
            assert(digits@ =~= before.drop_last());
        }
    }
    let mut i: usize = 0;
    let ghost stripped = digits@;
    let ghost full = spec_print_fixed(value.raw as int);
    proof {
        assert(spec_strip_zeros(digits@) == digits@);
        assert(m as int == if value.raw < 0 {
            -(value.raw as int)
        } else {
            value.raw as int
        });
        assert(full =~= (if value.raw < 0 {
            seq![45u8]
        } else {
            Seq::<u8>::empty()
        }) + spec_digits((m as int) / 65536) + seq![46u8] + stripped);
    }
    while i < digits.len()
        invariant
            i <= digits@.len(),
            digits@ == stripped,
            full == spec_print_fixed(value.raw as int),
            full == (if value.raw < 0 {
                seq![45u8]
            } else {
                Seq::<u8>::empty()
            }) + spec_digits((m as int) / 65536) + seq![46u8] + stripped,
            full.len() >= stripped.len(),
            out@ == old(out)@ + full.take(full.len() - stripped.len() + i),
        decreases digits@.len() - i,
    {
        out.push(digits[i]);
        i = i + 1;
        proof {
            assert(full[full.len() - stripped.len() + (i - 1)] == stripped[i - 1]);
            assert(full.take(full.len() - stripped.len() + i) =~= full.take(
                full.len() - stripped.len() + (i - 1),
            ).push(stripped[i - 1]));
        }
    }
    proof {
        assert(full.take(full.len() as int) =~= full);
    }
}

fn hex_digit_byte(d: u32) -> (r: u8)
    requires
        d < 16,
    ensures
        r == spec_hex_digit(d as int),
{
    if d < 10 {
        48 + d as u8
    } else {
        87 + d as u8
    }
}

fn push_u_escape(n: u32, out: &mut Vec<u8>)
    requires
        n < 65536,
    ensures
        final(out)@ == old(out)@ + spec_u_escape(n as int),
{
    out.push(92);
    out.push(117);
    out.push(hex_digit_byte(n / 4096 % 16));
    out.push(hex_digit_byte(n / 256 % 16));
    out.push(hex_digit_byte(n / 16 % 16));
    out.push(hex_digit_byte(n % 16));
    proof {
        assert(out@ =~= old(out)@ + spec_u_escape(n as int));
    }
}

fn push_escaped_char(c: char, out: &mut Vec<u8>)
    ensures
        final(out)@ == old(out)@ + spec_escape_char(c),
{
    let n: u32 = c as u32;
    if n == 34 {
        out.push(92);
        out.push(34);
        proof {
            assert(out@ =~= old(out)@ + spec_escape_char(c));
        }
    } else if n == 92 {
        out.push(92);
        out.push(92);
        proof {
            assert(out@ =~= old(out)@ + spec_escape_char(c));
        }
    } else if n == 8 {
        out.push(92);
        out.push(98);
        proof {
            assert(out@ =~= old(out)@ + spec_escape_char(c));
        }
    } else if n == 9 {
        out.push(92);
        out.push(116);
        proof {
            assert(out@ =~= old(out)@ + spec_escape_char(c));
        }
    } else if n == 10 {
        out.push(92);
        out.push(110);
        proof {
            assert(out@ =~= old(out)@ + spec_escape_char(c));
        }
    } else if n == 12 {
        out.push(92);
        out.push(102);
        proof {
            assert(out@ =~= old(out)@ + spec_escape_char(c));
        }
    } else if n == 13 {
        out.push(92);
        out.push(114);
        proof {
            assert(out@ =~= old(out)@ + spec_escape_char(c));
        }
    } else if 32 <= n && n < 127 {
        out.push(n as u8);
        proof {
            assert(out@ =~= old(out)@ + spec_escape_char(c));
        }
    } else if n < 65536 {
        push_u_escape(n, out);
    } else {
        let v: u32 = n - 65536;
        push_u_escape(55296 + v / 1024, out);
        push_u_escape(56320 + v % 1024, out);
        proof {
            assert(out@ =~= old(out)@ + spec_escape_char(c));
        }
    }
}

fn push_string(s: &str, out: &mut Vec<u8>)
    ensures
        final(out)@ == old(out)@ + spec_print_string(s@),
{
    out.push(34);
    let n: usize = s.unicode_len();
    let mut i: usize = 0;
    proof {
        assert(out@ =~= old(out)@ + seq![34u8] + spec_escape(s@.take(0)));
    }
    while i < n
        invariant
            i <= n,
            n == s@.len(),
            out@ == old(out)@ + seq![34u8] + spec_escape(s@.take(i as int)),
        decreases n - i,
    {
        let c: char = s.get_char(i);
        push_escaped_char(c, out);
        i = i + 1;
        proof {
            assert(s@.take(i as int).drop_last() =~= s@.take(i - 1));
            assert(s@.take(i as int).last() == s@[i - 1]);
            assert(out@ =~= old(out)@ + seq![34u8] + spec_escape(s@.take(i as int)));
        }
    }
    out.push(34);
    proof {
        assert(s@.take(n as int) =~= s@);
        assert(out@ =~= old(out)@ + spec_print_string(s@));
    }
}

/// Writes the canonical byte stream of a JSON value.
pub fn print_json(v: &Json, out: &mut Vec<u8>)
    ensures
        final(out)@ == old(out)@ + spec_print(v@),
    decreases v@,
{
    match v {
        Json::Null => {
            out.push(110);
            out.push(117);
            out.push(108);
            out.push(108);
            proof {
                assert(out@ =~= old(out)@ + spec_print(v@));
            }
        },
        Json::Bool(b) => {
            if *b {
                out.push(116);
                out.push(114);
                out.push(117);
                out.push(101);
            } else {
                out.push(102);
                out.push(97);
                out.push(108);
                out.push(115);
                out.push(101);
            }
            proof {
                assert(out@ =~= old(out)@ + spec_print(v@));
            }
        },
        Json::Int { neg, mag } => {
            if *neg {
                out.push(45);
            }
            push_digits(*mag, out);
            proof {
                assert(out@ =~= old(out)@ + spec_print(v@));
            }
        },
        Json::Fixed(f) => {
            push_fixed(*f, out);
        },
        Json::Text(s) => {
            push_string(s.as_str(), out);
        },
        Json::Arr(items) => {
            out.push(91);
            let mut i: usize = 0;
            proof {
                crate::json::lemma_view_seq(items@);
            }
            while i < items.len()
                invariant
                    i <= items@.len(),
                    v@ == JsonV::Arr(spec_view_seq(items@)),
                    spec_view_seq(items@).len() == items@.len(),
                    forall|k: int|
                        0 <= k < items@.len() ==> spec_view_seq(items@)[k] == (
                        #[trigger] items@[k]).view(),
                    out@ == old(out)@ + seq![91u8] + spec_print_items(
                        spec_view_seq(items@).take(i as int),
                    ),
                decreases items@.len() - i,
            {
                if i > 0 {
                    out.push(44);
                }
                proof {
                    assert(v@ == JsonV::Arr(spec_view_seq(items@)));
                    assert(decreases_to!(v@ => v@->Arr_0));
                    assert(decreases_to!(spec_view_seq(items@) => spec_view_seq(
                        items@,
                    )[i as int]));
                    assert(items@[i as int]@ == spec_view_seq(items@)[i as int]);
                    assert(decreases_to!(v@ => items@[i as int]@));
                }
                print_json(&items[i], out);
                i = i + 1;
                proof {
                    let vs = spec_view_seq(items@);
                    assert(vs.take(i as int).drop_last() =~= vs.take(i - 1));
                    assert(vs.take(i as int).last() == vs[i - 1]);
                    assert(out@ =~= old(out)@ + seq![91u8] + spec_print_items(
                        vs.take(i as int),
                    ));
                }
            }
            out.push(93);
            proof {
                assert(spec_view_seq(items@).take(items@.len() as int) =~= spec_view_seq(
                    items@,
                ));
                assert(out@ =~= old(out)@ + spec_print(v@));
            }
        },
        Json::Obj(entries) => {
            out.push(123);
            let mut i: usize = 0;
            proof {
                crate::json::lemma_view_entries(entries@);
            }
            while i < entries.len()
                invariant
                    i <= entries@.len(),
                    v@ == JsonV::Obj(spec_view_entries(entries@)),
                    spec_view_entries(entries@).len() == entries@.len(),
                    forall|k: int|
                        0 <= k < entries@.len() ==> spec_view_entries(entries@)[k] == ((
                        #[trigger] entries@[k]).0@, entries@[k].1.view()),
                    out@ == old(out)@ + seq![123u8] + spec_print_entries(
                        spec_view_entries(entries@).take(i as int),
                    ),
                decreases entries@.len() - i,
            {
                if i > 0 {
                    out.push(44);
                }
                push_string(entries[i].0.as_str(), out);
                out.push(58);
                proof {
                    assert(v@ == JsonV::Obj(spec_view_entries(entries@)));
                    assert(decreases_to!(v@ => v@->Obj_0));
                    assert(decreases_to!(spec_view_entries(entries@) => spec_view_entries(
                        entries@,
                    )[i as int]));
                    assert(decreases_to!(spec_view_entries(entries@)[i as int]
                        => spec_view_entries(entries@)[i as int].1));
                    assert(entries@[i as int].1@ == spec_view_entries(entries@)[i as int].1);
                    assert(decreases_to!(v@ => entries@[i as int].1@));
                }
                print_json(&entries[i].1, out);
                i = i + 1;
                proof {
                    let vs = spec_view_entries(entries@);
                    assert(vs.take(i as int).drop_last() =~= vs.take(i - 1));
                    assert(vs.take(i as int).last() == vs[i - 1]);
                    assert(out@ =~= old(out)@ + seq![123u8] + spec_print_entries(
                        vs.take(i as int),
                    ));
                }
            }
            out.push(125);
            proof {
                assert(spec_view_entries(entries@).take(entries@.len() as int)
                    =~= spec_view_entries(entries@));
                assert(out@ =~= old(out)@ + spec_print(v@));
            }
        },
    }
}

/// Pure ASCII bytes.
pub open spec fn ascii_seq(s: Seq<u8>) -> bool {
    forall|i: int| 0 <= i < s.len() ==> (#[trigger] s[i]) <= 127
}

proof fn lemma_ascii_concat(a: Seq<u8>, b: Seq<u8>)
    requires
        ascii_seq(a),
        ascii_seq(b),
    ensures
        ascii_seq(a + b),
{
    assert forall|i: int| 0 <= i < (a + b).len() implies #[trigger] (a + b)[i] <= 127 by {
        if i < a.len() {
            assert((a + b)[i] == a[i]);
        } else {
            assert((a + b)[i] == b[i - a.len()]);
        }
    }
}

proof fn lemma_digits_ascii(n: int)
    requires
        n >= 0,
    ensures
        ascii_seq(spec_digits(n)),
    decreases n,
{
    if n >= 10 {
        lemma_digits_ascii(n / 10);
        assert(0 <= n % 10 < 10);
    }
}

proof fn lemma_padded_ascii(n: int, k: nat)
    ensures
        ascii_seq(spec_padded(n, k)),
    decreases k,
{
    if k > 0 {
        lemma_padded_ascii(n / 10, (k - 1) as nat);
        assert(0 <= n % 10 < 10);
    }
}

proof fn lemma_strip_zeros_ascii(s: Seq<u8>)
    requires
        ascii_seq(s),
    ensures
        ascii_seq(spec_strip_zeros(s)),
    decreases s.len(),
{
    if s.len() > 1 && s.last() == 48 {
        assert(ascii_seq(s.drop_last()));
        lemma_strip_zeros_ascii(s.drop_last());
    }
}

proof fn lemma_u_escape_ascii(n: int)
    ensures
        ascii_seq(spec_u_escape(n)),
{
    assert(0 <= n % 16 < 16);
    assert(0 <= n / 16 % 16 < 16);
    assert(0 <= n / 256 % 16 < 16);
    assert(0 <= n / 4096 % 16 < 16);
}

proof fn lemma_escape_char_ascii(c: char)
    ensures
        ascii_seq(spec_escape_char(c)),
{
    let n = c as u32;
    if n == 34 || n == 92 || n == 8 || n == 9 || n == 10 || n == 12 || n == 13 {
    } else if 32 <= n < 127 {
    } else if n < 65536 {
        lemma_u_escape_ascii(n as int);
    } else {
        lemma_u_escape_ascii(55296 + (n - 65536) as int / 1024);
        lemma_u_escape_ascii(56320 + (n - 65536) as int % 1024);
        lemma_ascii_concat(
            spec_u_escape(55296 + (n - 65536) as int / 1024),
            spec_u_escape(56320 + (n - 65536) as int % 1024),
        );
    }
}

proof fn lemma_escape_ascii(s: Seq<char>)
    ensures
        ascii_seq(spec_escape(s)),
    decreases s.len(),
{
    if s.len() > 0 {
        lemma_escape_ascii(s.drop_last());
        lemma_escape_char_ascii(s.last());
        lemma_ascii_concat(spec_escape(s.drop_last()), spec_escape_char(s.last()));
    }
}

proof fn lemma_print_string_ascii(s: Seq<char>)
    ensures
        ascii_seq(spec_print_string(s)),
{
    lemma_escape_ascii(s);
    lemma_ascii_concat(seq![34u8], spec_escape(s));
    lemma_ascii_concat(seq![34u8] + spec_escape(s), seq![34u8]);
}

proof fn lemma_print_fixed_ascii(raw: int)
    ensures
        ascii_seq(spec_print_fixed(raw)),
{
    let m = if raw < 0 {
        -raw
    } else {
        raw
    };
    let sign: Seq<u8> = if raw < 0 {
        seq![45u8]
    } else {
        Seq::empty()
    };
    vstd::arithmetic::div_mod::lemma_div_pos_is_pos(m, 65536);
    lemma_digits_ascii(m / 65536);
    lemma_padded_ascii((m % 65536) * 152587890625, 16);
    lemma_strip_zeros_ascii(spec_padded((m % 65536) * 152587890625, 16));
    lemma_ascii_concat(sign, spec_digits(m / 65536));
    lemma_ascii_concat(sign + spec_digits(m / 65536), seq![46u8]);
    lemma_ascii_concat(
        sign + spec_digits(m / 65536) + seq![46u8],
        spec_strip_zeros(spec_padded((m % 65536) * 152587890625, 16)),
    );
}

/// The writer's output is pure ASCII for every value.
pub proof fn lemma_print_ascii(v: JsonV)
    ensures
        ascii_seq(spec_print(v)),
    decreases v,
{
    match v {
        JsonV::Null => {},
        JsonV::Bool(b) => {},
        JsonV::Int { neg, mag } => {
            lemma_digits_ascii(mag as int);
            if neg {
                lemma_ascii_concat(seq![45u8], spec_digits(mag as int));
            }
        },
        JsonV::Fixed(raw) => {
            lemma_print_fixed_ascii(raw);
        },
        JsonV::Text(s) => {
            lemma_print_string_ascii(s);
        },
        JsonV::Arr(items) => {
            lemma_print_items_ascii(items);
            lemma_ascii_concat(seq![91u8], spec_print_items(items));
            lemma_ascii_concat(seq![91u8] + spec_print_items(items), seq![93u8]);
        },
        JsonV::Obj(entries) => {
            lemma_print_entries_ascii(entries);
            lemma_ascii_concat(seq![123u8], spec_print_entries(entries));
            lemma_ascii_concat(seq![123u8] + spec_print_entries(entries), seq![125u8]);
        },
    }
}

proof fn lemma_print_items_ascii(items: Seq<JsonV>)
    ensures
        ascii_seq(spec_print_items(items)),
    decreases items,
{
    if items.len() == 1 {
        lemma_print_ascii(items.last());
    } else if items.len() > 1 {
        lemma_print_items_ascii(items.drop_last());
        lemma_print_ascii(items.last());
        lemma_ascii_concat(spec_print_items(items.drop_last()), seq![44u8]);
        lemma_ascii_concat(
            spec_print_items(items.drop_last()) + seq![44u8],
            spec_print(items.last()),
        );
    }
}

proof fn lemma_print_entries_ascii(entries: Seq<(Seq<char>, JsonV)>)
    ensures
        ascii_seq(spec_print_entries(entries)),
    decreases entries,
{
    if entries.len() == 1 {
        lemma_print_string_ascii(entries.last().0);
        lemma_print_ascii(entries.last().1);
        lemma_ascii_concat(spec_print_string(entries.last().0), seq![58u8]);
        lemma_ascii_concat(
            spec_print_string(entries.last().0) + seq![58u8],
            spec_print(entries.last().1),
        );
    } else if entries.len() > 1 {
        lemma_print_entries_ascii(entries.drop_last());
        lemma_print_string_ascii(entries.last().0);
        lemma_print_ascii(entries.last().1);
        lemma_ascii_concat(spec_print_entries(entries.drop_last()), seq![44u8]);
        lemma_ascii_concat(
            spec_print_entries(entries.drop_last()) + seq![44u8],
            spec_print_string(entries.last().0),
        );
        lemma_ascii_concat(
            spec_print_entries(entries.drop_last()) + seq![44u8] + spec_print_string(
                entries.last().0,
            ),
            seq![58u8],
        );
        lemma_ascii_concat(
            spec_print_entries(entries.drop_last()) + seq![44u8] + spec_print_string(
                entries.last().0,
            ) + seq![58u8],
            spec_print(entries.last().1),
        );
    }
}

/// ASCII byte sequences are valid UTF-8.
pub proof fn lemma_ascii_valid_utf8(bytes: Seq<u8>)
    requires
        ascii_seq(bytes),
    ensures
        vstd::utf8::valid_utf8(bytes),
{
    assert(vstd::utf8::partial_valid_utf8(bytes, 0)) by {
        assert(bytes.subrange(0, 0) =~= Seq::<u8>::empty());
        reveal_with_fuel(vstd::utf8::valid_utf8, 1);
    };
    assert forall|i: int|
        0 <= 0 <= i < bytes.len() <= bytes.len() implies #[trigger] vstd::utf8::is_leading_byte_width_1(
        bytes[i],
    ) by {}
    vstd::utf8::partial_valid_utf8_extend_ascii_block(bytes, 0, bytes.len() as int);
    assert(bytes.subrange(0, bytes.len() as int) =~= bytes);
}

} // verus!
