//! JSON text emission for the host boundary.
//!
//! The payload of every host capability is JSON.  The library frames those
//! bytes itself: [`write_value`] emits exactly the text that [`json_bytes`]
//! defines for a document tree, so the message handed to the host is pinned
//! down to the byte.
use vstd::prelude::*;
use vstd::string::StringSliceAdditionalSpecFns;
use crate::policy::value::{ConfigValue, ValueView, views_of, fields_view};

verus! {

broadcast use {
    vstd::std_specs::vec::group_vec_axioms,
    crate::policy::value::lemma_fields_view,
    crate::policy::value::lemma_views_of,
};

/// The JSON escape of one string byte.  Quote and backslash take a two-byte
/// escape, the named control characters take theirs, any other control byte
/// takes the `\u00XX` form, and everything else (UTF-8 continuation bytes
/// included) passes through.
pub open spec fn escape_byte(b: u8) -> Seq<u8> {
    if b == 34 {
        seq![92u8, 34u8]
    } else if b == 92 {
        seq![92u8, 92u8]
    } else if b == 8 {
        seq![92u8, 98u8]
    } else if b == 12 {
        seq![92u8, 102u8]
    } else if b == 10 {
        seq![92u8, 110u8]
    } else if b == 13 {
        seq![92u8, 114u8]
    } else if b == 9 {
        seq![92u8, 116u8]
    } else if b < 32 {
        seq![92u8, 117u8, 48u8, 48u8, hex_digit(b / 16), hex_digit(b % 16)]
    } else {
        seq![b]
    }
}

/// The lower-case hex digit for a value below 16.
pub open spec fn hex_digit(d: u8) -> u8 {
    if d < 10 {
        (48 + d) as u8
    } else {
        (87 + d) as u8
    }
}

/// The escapes of the bytes at and after `i`.
pub open spec fn escape_from(s: Seq<u8>, i: int) -> Seq<u8>
    decreases s.len() - i,
{
    if i < 0 || i >= s.len() {
        Seq::empty()
    } else {
        escape_byte(s[i]) + escape_from(s, i + 1)
    }
}

/// A JSON string literal: the escaped bytes between quotes.
pub open spec fn json_string(s: Seq<u8>) -> Seq<u8> {
    seq![34u8] + escape_from(s, 0) + seq![34u8]
}

/// The decimal digits of a non-negative integer.
pub open spec fn dec_digits(n: int) -> Seq<u8>
    decreases n,
{
    if n < 10 {
        seq![(48 + (if n >= 0 {
            n
        } else {
            0
        })) as u8]
    } else {
        dec_digits(n / 10) + seq![(48 + (n % 10)) as u8]
    }
}

/// A JSON integer literal.
pub open spec fn json_int(i: int) -> Seq<u8> {
    if i < 0 {
        seq![45u8] + dec_digits(-i)
    } else {
        dec_digits(i)
    }
}

/// The JSON text of a document tree.
pub open spec fn json_bytes(v: ValueView) -> Seq<u8>
    decreases v, 0int,
{
    match v {
        ValueView::Null => seq![110u8, 117u8, 108u8, 108u8],
        ValueView::Bool(b) => if b {
            seq![116u8, 114u8, 117u8, 101u8]
        } else {
            seq![102u8, 97u8, 108u8, 115u8, 101u8]
        },
        ValueView::Int(i) => json_int(i),
        ValueView::Str(s) => json_string(vstd::utf8::encode_utf8(s)),
        ValueView::Arr(items) => seq![91u8] + json_items(items, 0) + seq![93u8],
        ValueView::Obj(fields) => seq![123u8] + json_obj_fields(fields, 0) + seq![125u8],
    }
}

/// The comma-joined JSON texts of the items at and after `i`.
pub open spec fn json_items(items: Seq<ValueView>, i: int) -> Seq<u8>
    decreases items, items.len() - i,
{
    if i < 0 || i >= items.len() {
        Seq::empty()
    } else {
        (if i > 0 {
            seq![44u8]
        } else {
            Seq::empty()
        }) + json_bytes(items[i]) + json_items(items, i + 1)
    }
}

/// The comma-joined JSON texts of the fields at and after `i`.
pub open spec fn json_obj_fields(fields: Seq<(Seq<char>, ValueView)>, i: int) -> Seq<u8>
    decreases fields, fields.len() - i,
{
    if i < 0 || i >= fields.len() {
        Seq::empty()
    } else {
        (if i > 0 {
            seq![44u8]
        } else {
            Seq::empty()
        }) + json_string(vstd::utf8::encode_utf8(fields[i].0)) + seq![58u8] + json_bytes(
            fields[i].1,
        ) + json_obj_fields(fields, i + 1)
    }
}

/// Writes the decimal digits of `n`.
fn write_dec(out: &mut Vec<u8>, n: u64)
    ensures
        final(out)@ == old(out)@ + dec_digits(n as int),
    decreases n,
{
    if n < 10 {
        out.push((48 + n as u8) as u8);
        proof {
            assert(final(out)@ =~= old(out)@ + dec_digits(n as int));
        }
    } else {
        write_dec(out, n / 10);
        out.push((48 + (n % 10) as u8) as u8);
        proof {
            assert(final(out)@ =~= old(out)@ + dec_digits(n as int));
        }
    }
}

/// Writes a JSON integer literal.
fn write_int(out: &mut Vec<u8>, i: i64)
    ensures
        final(out)@ == old(out)@ + json_int(i as int),
{
    if i < 0 {
        out.push(45);
        let magnitude: u64 = if i == i64::MIN {
            9223372036854775808u64
        } else {
            (-i) as u64
        };
        write_dec(out, magnitude);
        proof {
            assert(final(out)@ =~= old(out)@ + json_int(i as int));
        }
    } else {
        write_dec(out, i as u64);
    }
}

/// Writes the escape of one string byte.
fn write_escaped_byte(out: &mut Vec<u8>, b: u8)
    ensures
        final(out)@ == old(out)@ + escape_byte(b),
{
    if b == 34 {
        out.push(92);
        out.push(34);
    } else if b == 92 {
        out.push(92);
        out.push(92);
    } else if b == 8 {
        out.push(92);
        out.push(98);
    } else if b == 12 {
        out.push(92);
        out.push(102);
    } else if b == 10 {
        out.push(92);
        out.push(110);
    } else if b == 13 {
        out.push(92);
        out.push(114);
    } else if b == 9 {
        out.push(92);
        out.push(116);
    } else if b < 32 {
        out.push(92);
        out.push(117);
        out.push(48);
        out.push(48);
        let hi = b / 16;
        let lo = b % 16;
        out.push(
            if hi < 10 {
                48 + hi
            } else {
                87 + hi
            },
        );
        out.push(
            if lo < 10 {
                48 + lo
            } else {
                87 + lo
            },
        );
    } else {
        out.push(b);
    }
    proof {
        assert(final(out)@ =~= old(out)@ + escape_byte(b));
    }
}

/// Writes a JSON string literal.
pub(crate) fn write_json_string(out: &mut Vec<u8>, s: &str)
    ensures
        final(out)@ == old(out)@ + json_string(s.spec_bytes()),
{
    let ghost base = out@;
    let bytes = s.as_bytes();
    out.push(34);
    proof {
        assert(escape_from(bytes@, 0) == Seq::<u8>::empty() + escape_from(bytes@, 0));
        assert(Seq::<u8>::empty() + escape_from(bytes@, 0) =~= escape_from(bytes@, 0));
    }
    for i in 0..bytes.len()
        invariant
            bytes@ == s.spec_bytes(),
            out@ == base + seq![34u8] + escape_from(bytes@, 0).take(
                out@.len() - base.len() - 1,
            ),
            escape_from(bytes@, 0) =~= escape_from(bytes@, 0).take(out@.len() - base.len() - 1)
                + escape_from(bytes@, i as int),
            out@.len() >= base.len() + 1,
    {
        let ghost done = escape_from(bytes@, 0).take(out@.len() - base.len() - 1);
        write_escaped_byte(out, bytes[i]);
        proof {
            assert(escape_from(bytes@, i as int) == escape_byte(bytes@[i as int]) + escape_from(
                bytes@,
                i + 1,
            ));
            assert(out@ == base + seq![34u8] + (done + escape_byte(bytes@[i as int])));
            assert(done + escape_byte(bytes@[i as int]) =~= escape_from(bytes@, 0).take(
                out@.len() - base.len() - 1,
            ));
            assert(escape_from(bytes@, 0) =~= (done + escape_byte(bytes@[i as int]))
                + escape_from(bytes@, i + 1));
        }
    }
    proof {
        assert(escape_from(bytes@, bytes@.len() as int) == Seq::<u8>::empty());
        assert(escape_from(bytes@, 0).take(out@.len() - base.len() - 1) + Seq::<u8>::empty()
            =~= escape_from(bytes@, 0).take(out@.len() - base.len() - 1));
        assert(escape_from(bytes@, 0).take(out@.len() - base.len() - 1) =~= escape_from(
            bytes@,
            0,
        ));
    }
    out.push(34);
    proof {
        assert(final(out)@ =~= base + json_string(s.spec_bytes()));
    }
}

/// Writes the JSON text of a document tree: exactly [`json_bytes`].
pub fn write_value(out: &mut Vec<u8>, v: &ConfigValue)
    ensures
        final(out)@ == old(out)@ + json_bytes(v@),
    decreases v, 0int,
{
    match v {
        ConfigValue::Null => {
            out.push(110);
            out.push(117);
            out.push(108);
            out.push(108);
            proof {
                assert(final(out)@ =~= old(out)@ + json_bytes(v@));
            }
        },
        ConfigValue::Bool(b) => {
            if *b {
                out.push(116);
                out.push(114);
                out.push(117);
                out.push(101);
            } else {
                out.push(102);
                out.push(97);
                out.push(108);
                out.push(115);
                out.push(101);
            }
            proof {
                assert(final(out)@ =~= old(out)@ + json_bytes(v@));
            }
        },
        ConfigValue::Int(i) => {
            write_int(out, *i);
        },
        ConfigValue::Str(s) => {
            write_json_string(out, s.as_str());
        },
        ConfigValue::Arr(items) => {
            out.push(91);
            write_items(out, items, 0);
            out.push(93);
            proof {
                assert(final(out)@ =~= old(out)@ + json_bytes(v@));
            }
        },
        ConfigValue::Obj(fields) => {
            out.push(123);
            write_fields(out, fields, 0);
            out.push(125);
            proof {
                assert(final(out)@ =~= old(out)@ + json_bytes(v@));
            }
        },
    }
}

/// Writes the comma-joined items at and after `i`.
fn write_items(out: &mut Vec<u8>, items: &Vec<ConfigValue>, i: usize)
    requires
        i <= items.len(),
    ensures
        final(out)@ == old(out)@ + json_items(views_of(items@), i as int),
    decreases items, items.len() - i,
{
    let ghost gv = views_of(items@);
    if i < items.len() {
        if i > 0 {
            out.push(44);
        }
        proof {
            vstd::std_specs::vec::axiom_vec_index_decreases(*items, i as int);
        }
        write_value(out, &items[i]);
        write_items(out, items, i + 1);
        proof {
            assert(final(out)@ =~= old(out)@ + json_items(gv, i as int));
        }
    } else {
        proof {
            assert(final(out)@ =~= old(out)@ + json_items(gv, i as int));
        }
    }
}

/// Writes the comma-joined fields at and after `i`.
fn write_fields(out: &mut Vec<u8>, fields: &Vec<(String, ConfigValue)>, i: usize)
    requires
        i <= fields.len(),
    ensures
        final(out)@ == old(out)@ + json_obj_fields(fields_view(fields@), i as int),
    decreases fields, fields.len() - i,
{
    let ghost gf = fields_view(fields@);
    if i < fields.len() {
        if i > 0 {
            out.push(44);
        }
        write_json_string(out, fields[i].0.as_str());
        out.push(58);
        proof {
            vstd::std_specs::vec::axiom_vec_index_decreases(*fields, i as int);
        }
        write_value(out, &fields[i].1);
        write_fields(out, fields, i + 1);
        proof {
            assert(final(out)@ =~= old(out)@ + json_obj_fields(gf, i as int));
        }
    } else {
        proof {
            assert(final(out)@ =~= old(out)@ + json_obj_fields(gf, i as int));
        }
    }
}

/// The JSON text of a document tree, as fresh bytes.
pub fn to_json_bytes(v: &ConfigValue) -> (r: Vec<u8>)
    ensures
        r@ == json_bytes(v@),
{
    let mut out: Vec<u8> = Vec::new();
    write_value(&mut out, v);
    proof {
        assert(Seq::<u8>::empty() + json_bytes(v@) =~= json_bytes(v@));
    }
    out
}

} // verus!
