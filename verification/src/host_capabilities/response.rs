//! Decoding of host answers.
//!
//! The host answers every capability with a small flat JSON object, written
//! the way the policy server writes it: compact and with the fields in
//! declaration order, string values carrying the standard JSON escapes.  The
//! decoder accepts exactly the texts that the crate's own emitter
//! ([`crate::host_capabilities::json::json_bytes`]) produces for such an
//! object, escapes included, and its contract is two-directional: a
//! successful decode pins the answered bytes completely, and every such text
//! is promised to decode to its object, so a well-formed host verdict can
//! never lawfully be reported as a decode failure.
use vstd::prelude::*;
use vstd::utf8::{encode_utf8, decode_utf8};
use crate::policy::value::ValueView;
use crate::host_capabilities::json::{
    json_bytes, json_string, json_obj_fields, escape_from, escape_byte, hex_digit,
    write_json_string,
};
use crate::host_capabilities::wapc::string_from_utf8;

verus! {

/// Whether `seg` stands at `off` in `bytes`.
fn seg_matches(bytes: &Vec<u8>, off: usize, seg: &Vec<u8>) -> (r: bool)
    requires
        off <= bytes.len(),
    ensures
        r == (off + seg@.len() <= bytes@.len() && bytes@.subrange(
            off as int,
            off + seg@.len(),
        ) =~= seg@),
{
    if seg.len() > bytes.len() - off {
        return false;
    }
    let n = seg.len();
    for t in 0..n
        invariant
            n == seg.len(),
            off + n <= bytes.len(),
            bytes@.len() == bytes.len(),
            seg@.len() == seg.len(),
            forall|u: int| 0 <= u < t ==> bytes@[off + u] == seg@[u],
    {
        if bytes[off + t] != seg[t] {
            assert(bytes@.subrange(off as int, off + seg@.len())[t as int] != seg@[t as int]);
            return false;
        }
    }
    proof {
        assert(bytes@.subrange(off as int, off + seg@.len()) =~= seg@);
    }
    true
}

/// The JSON text of a boolean.
pub open spec fn bool_bytes(b: bool) -> Seq<u8> {
    if b {
        seq![116u8, 114u8, 117u8, 101u8]
    } else {
        seq![102u8, 97u8, 108u8, 115u8, 101u8]
    }
}

/// The canonical JSON text of `{k1: b, k2: s}`: what the crate's emitter
/// writes for that object, escapes included.  Opaque: every proof goes
/// through [`lemma_canonical_layout`].
#[verifier::opaque]
pub open spec fn canonical_object(k1: Seq<char>, k2: Seq<char>, b: bool, s: Seq<char>) -> Seq<u8> {
    json_bytes(ValueView::Obj(seq![(k1, ValueView::Bool(b)), (k2, ValueView::Str(s))]))
}

/// The canonical text splits into five segments: the opening and first key,
/// the boolean, the second key up to the opening quote, the escaped string
/// bytes, and the closing quote and brace.
proof fn lemma_canonical_layout(k1: Seq<char>, k2: Seq<char>, b: bool, s: Seq<char>)
    ensures
        canonical_object(k1, k2, b, s) == (seq![123u8] + json_string(encode_utf8(k1)) + seq![58u8])
            + bool_bytes(b) + (seq![44u8] + json_string(encode_utf8(k2)) + seq![58u8] + seq![34u8])
            + escape_from(encode_utf8(s), 0) + seq![34u8] + seq![125u8],
{
    reveal(canonical_object);
    let fields = seq![(k1, ValueView::Bool(b)), (k2, ValueView::Str(s))];
    let tree = ValueView::Obj(fields);
    assert(fields[0] == (k1, ValueView::Bool(b)));
    assert(fields[1] == (k2, ValueView::Str(s)));
    assert(fields.len() == 2);
    assert(json_obj_fields(fields, 2) == Seq::<u8>::empty());
    assert(json_obj_fields(fields, 1) == seq![44u8] + json_string(encode_utf8(k2)) + seq![58u8]
        + json_bytes(ValueView::Str(s)) + json_obj_fields(fields, 2));
    assert(json_obj_fields(fields, 0) == json_string(encode_utf8(k1)) + seq![58u8] + json_bytes(
        ValueView::Bool(b),
    ) + json_obj_fields(fields, 1));
    assert(json_bytes(tree) == seq![123u8] + json_obj_fields(fields, 0) + seq![125u8]);
    assert(json_bytes(ValueView::Bool(b)) == bool_bytes(b));
    assert(json_bytes(ValueView::Str(s)) == json_string(encode_utf8(s)));
    assert(json_bytes(tree) =~= (seq![123u8] + json_string(encode_utf8(k1)) + seq![58u8])
        + bool_bytes(b) + (seq![44u8] + json_string(encode_utf8(k2)) + seq![58u8] + seq![34u8])
        + escape_from(encode_utf8(s), 0) + seq![34u8] + seq![125u8]);
}

// ---------------------------------------------------------------------------
// Unescaping a JSON string region
// ---------------------------------------------------------------------------
/// The value of a lower-case hex digit byte.
pub open spec fn hex_val(d: u8) -> Option<u8> {
    if 48 <= d <= 57 {
        Some((d - 48) as u8)
    } else if 97 <= d <= 102 {
        Some((d - 87) as u8)
    } else {
        None
    }
}

/// A control byte without a named escape: the ones [`escape_byte`] writes in
/// the `\u00XX` form.
pub open spec fn unnamed_control(b: u8) -> bool {
    b < 32 && b != 8 && b != 12 && b != 10 && b != 13 && b != 9
}

/// Reads a JSON string region from `i` up to its closing quote, undoing the
/// escapes of [`escape_byte`] and no others: the raw bytes and the index of
/// the closing quote, or nothing when the region is not a text the crate's
/// emitter could have written.
pub open spec fn unescape_from(bytes: Seq<u8>, i: int) -> Option<(Seq<u8>, int)>
    decreases bytes.len() - i,
{
    if i < 0 || i >= bytes.len() {
        None
    } else if bytes[i] == 34 {
        Some((Seq::empty(), i))
    } else if bytes[i] == 92 {
        if i + 2 > bytes.len() {
            None
        } else if bytes[i + 1] == 117 {
            if i + 6 > bytes.len() {
                None
            } else if bytes[i + 2] != 48 || bytes[i + 3] != 48 {
                None
            } else {
                match (hex_val(bytes[i + 4]), hex_val(bytes[i + 5])) {
                    (Some(h1), Some(h2)) => {
                        let v = (16 * h1 + h2) as u8;
                        if unnamed_control(v) {
                            match unescape_from(bytes, i + 6) {
                                Some((raw, e)) => Some((seq![v] + raw, e)),
                                None => None,
                            }
                        } else {
                            None
                        }
                    },
                    _ => None,
                }
            }
        } else {
            let decoded: Option<u8> = if bytes[i + 1] == 34 {
                Some(34)
            } else if bytes[i + 1] == 92 {
                Some(92)
            } else if bytes[i + 1] == 98 {
                Some(8)
            } else if bytes[i + 1] == 102 {
                Some(12)
            } else if bytes[i + 1] == 110 {
                Some(10)
            } else if bytes[i + 1] == 114 {
                Some(13)
            } else if bytes[i + 1] == 116 {
                Some(9)
            } else {
                None
            };
            match decoded {
                Some(v) => match unescape_from(bytes, i + 2) {
                    Some((raw, e)) => Some((seq![v] + raw, e)),
                    None => None,
                },
                None => None,
            }
        }
    } else if bytes[i] < 32 {
        None
    } else {
        match unescape_from(bytes, i + 1) {
            Some((raw, e)) => Some((seq![bytes[i]] + raw, e)),
            None => None,
        }
    }
}

/// Escaping depends only on the bytes at and after the start index.
proof fn lemma_escape_from_skip(s: Seq<u8>, m: int)
    requires
        0 <= m <= s.len(),
    ensures
        escape_from(s, m) == escape_from(s.skip(m), 0),
    decreases s.len() - m,
{
    if m < s.len() {
        lemma_escape_from_skip(s, m + 1);
        assert(s.skip(m)[0] == s[m]);
        assert(s.skip(m).drop_first() =~= s.skip(m + 1));
        assert(escape_from(s.skip(m), 0) == escape_byte(s.skip(m)[0]) + escape_from(
            s.skip(m),
            1,
        ));
        lemma_escape_shift_one(s.skip(m));
    } else {
        assert(s.skip(m) =~= Seq::<u8>::empty());
    }
}

/// Escaping from position one is escaping the tail.
proof fn lemma_escape_shift_one(s: Seq<u8>)
    requires
        s.len() >= 1,
    ensures
        escape_from(s, 1) == escape_from(s.drop_first(), 0),
    decreases s.len(),
{
    lemma_escape_shift_from(s, 1);
}

/// Escaping from any position is escaping the corresponding tail.
proof fn lemma_escape_shift_from(s: Seq<u8>, m: int)
    requires
        1 <= m <= s.len(),
    ensures
        escape_from(s, m) == escape_from(s.drop_first(), m - 1),
    decreases s.len() - m,
{
    if m < s.len() {
        lemma_escape_shift_from(s, m + 1);
        assert(s.drop_first()[m - 1] == s[m]);
    }
}

/// Undoing the escapes of an escaped text gives the raw bytes back: the
/// completeness direction of the string scanner.
proof fn lemma_unescape_of_escaped(bytes: Seq<u8>, i: int, raw: Seq<u8>, m: int)
    requires
        0 <= m <= raw.len(),
        0 <= i,
        i + escape_from(raw, m).len() < bytes.len(),
        forall|t: int|
            0 <= t < escape_from(raw, m).len() ==> bytes[i + t] == escape_from(raw, m)[t],
        bytes[i + escape_from(raw, m).len()] == 34,
    ensures
        unescape_from(bytes, i) == Some((raw.skip(m), i + escape_from(raw, m).len())),
    decreases raw.len() - m,
{
    if m == raw.len() {
        assert(escape_from(raw, m) == Seq::<u8>::empty());
        assert(bytes[i] == 34);
        assert(raw.skip(m) =~= Seq::<u8>::empty());
    } else {
        let b0 = raw[m];
        let tok = escape_byte(b0);
        let rest = escape_from(raw, m + 1);
        assert(escape_from(raw, m) == tok + rest);
        assert forall|t: int| 0 <= t < tok.len() implies bytes[i + t] == tok[t] by {
            assert(escape_from(raw, m)[t] == tok[t]);
        }
        assert(bytes[i + 0] == tok[0]);
        assert(tok.len() >= 2 ==> bytes[i + 1] == tok[1]);
        let li = i + tok.len();
        assert forall|t: int| 0 <= t < rest.len() implies bytes[li + t] == rest[t] by {
            assert(escape_from(raw, m)[tok.len() + t] == rest[t]);
        }
        lemma_unescape_of_escaped(bytes, li, raw, m + 1);
        assert(seq![b0] + raw.skip(m + 1) =~= raw.skip(m));
        if b0 == 34 {
            assert(tok == seq![92u8, 34u8]);
            assert(bytes[i] == 92 && bytes[i + 1] == 34);
        } else if b0 == 92 {
            assert(tok == seq![92u8, 92u8]);
            assert(bytes[i] == 92 && bytes[i + 1] == 92);
        } else if b0 == 8 {
            assert(tok == seq![92u8, 98u8]);
        } else if b0 == 12 {
            assert(tok == seq![92u8, 102u8]);
        } else if b0 == 10 {
            assert(tok == seq![92u8, 110u8]);
        } else if b0 == 13 {
            assert(tok == seq![92u8, 114u8]);
        } else if b0 == 9 {
            assert(tok == seq![92u8, 116u8]);
        } else if b0 < 32 {
            assert(tok == seq![92u8, 117u8, 48u8, 48u8, hex_digit(b0 / 16), hex_digit(b0 % 16)]);
            assert(hex_val(hex_digit(b0 / 16)) == Some((b0 / 16) as u8));
            assert(hex_val(hex_digit(b0 % 16)) == Some((b0 % 16) as u8));
            assert(16 * (b0 / 16) + (b0 % 16) == b0);
            assert(unnamed_control(b0));
        } else {
            assert(tok == seq![b0]);
            assert(bytes[i] == b0);
        }
    }
}

/// An accepted string region re-escapes to exactly its bytes: the soundness
/// direction of the string scanner.
proof fn lemma_escape_of_unescaped(bytes: Seq<u8>, i: int)
    requires
        unescape_from(bytes, i) is Some,
    ensures
        ({
            let (raw, e) = unescape_from(bytes, i)->Some_0;
            &&& 0 <= i <= e < bytes.len()
            &&& bytes[e] == 34
            &&& escape_from(raw, 0) =~= bytes.subrange(i, e)
        }),
    decreases bytes.len() - i,
{
    let (raw, e) = unescape_from(bytes, i)->Some_0;
    if bytes[i] == 34 {
        assert(bytes.subrange(i, i) =~= Seq::<u8>::empty());
    } else if bytes[i] == 92 {
        if bytes[i + 1] == 117 {
            let h1 = hex_val(bytes[i + 4])->Some_0;
            let h2 = hex_val(bytes[i + 5])->Some_0;
            let v = (16 * h1 + h2) as u8;
            lemma_escape_of_unescaped(bytes, i + 6);
            let (raw2, e2) = unescape_from(bytes, i + 6)->Some_0;
            assert(raw == seq![v] + raw2 && e == e2);
            assert(escape_byte(v) == seq![
                92u8,
                117u8,
                48u8,
                48u8,
                hex_digit(v / 16),
                hex_digit(v % 16),
            ]);
            assert(v / 16 == h1 && v % 16 == h2);
            assert(hex_digit(h1) == bytes[i + 4] && hex_digit(h2) == bytes[i + 5]);
            assert(raw.drop_first() =~= raw2);
            lemma_escape_shift_one(raw);
            assert(escape_from(raw, 0) =~= escape_byte(v) + escape_from(raw2, 0));
            assert(escape_from(raw, 0) =~= bytes.subrange(i, e));
        } else {
            let v: u8 = if bytes[i + 1] == 34 {
                34
            } else if bytes[i + 1] == 92 {
                92
            } else if bytes[i + 1] == 98 {
                8
            } else if bytes[i + 1] == 102 {
                12
            } else if bytes[i + 1] == 110 {
                10
            } else if bytes[i + 1] == 114 {
                13
            } else {
                9
            };
            lemma_escape_of_unescaped(bytes, i + 2);
            let (raw2, e2) = unescape_from(bytes, i + 2)->Some_0;
            assert(raw == seq![v] + raw2 && e == e2);
            assert(raw.drop_first() =~= raw2);
            lemma_escape_shift_one(raw);
            assert(escape_from(raw, 0) =~= escape_byte(v) + escape_from(raw2, 0));
            assert(escape_from(raw, 0) =~= bytes.subrange(i, e));
        }
    } else {
        lemma_escape_of_unescaped(bytes, i + 1);
        let (raw2, e2) = unescape_from(bytes, i + 1)->Some_0;
        assert(raw == seq![bytes[i]] + raw2 && e == e2);
        assert(raw.drop_first() =~= raw2);
        lemma_escape_shift_one(raw);
        assert(escape_byte(bytes[i]) == seq![bytes[i]]);
        assert(escape_from(raw, 0) =~= escape_byte(bytes[i]) + escape_from(raw2, 0));
        assert(escape_from(raw, 0) =~= bytes.subrange(i, e));
    }
}

/// Scans the string region that starts at `from`, undoing the escapes:
/// exactly [`unescape_from`].
fn scan_string_region(bytes: &Vec<u8>, from: usize) -> (r: Result<(Vec<u8>, usize), ()>)
    requires
        from <= bytes.len(),
    ensures
        match r {
            Ok((raw, quote)) => unescape_from(bytes@, from as int) == Some(
                (raw@, quote as int),
            ) && from <= quote < bytes@.len(),
            Err(_) => unescape_from(bytes@, from as int) is None,
        },
{
    let ghost gb = bytes@;
    let mut raw: Vec<u8> = Vec::new();
    let mut j: usize = from;
    proof {
        assert(raw@ =~= Seq::<u8>::empty());
    }
    while j < bytes.len() && bytes[j] != 34
        invariant
            from <= j <= bytes.len(),
            gb == bytes@,
            gb.len() == bytes.len(),
            unescape_from(gb, from as int) == (match unescape_from(gb, j as int) {
                Some((rest, e)) => Some((raw@ + rest, e)),
                None => None,
            }),
        decreases bytes.len() - j,
    {
        let c = bytes[j];
        let ghost old_raw = raw@;
        let ghost old_j = j as int;
        if c == 92 {
            if bytes.len() - j < 2 {
                return Err(());
            }
            let e = bytes[j + 1];
            if e == 117 {
                if bytes.len() - j < 6 {
                    return Err(());
                }
                if bytes[j + 2] != 48 || bytes[j + 3] != 48 {
                    return Err(());
                }
                let d1 = bytes[j + 4];
                let d2 = bytes[j + 5];
                let h1: u8 = if 48 <= d1 && d1 <= 57 {
                    d1 - 48
                } else if 97 <= d1 && d1 <= 102 {
                    d1 - 87
                } else {
                    return Err(());
                };
                let h2: u8 = if 48 <= d2 && d2 <= 57 {
                    d2 - 48
                } else if 97 <= d2 && d2 <= 102 {
                    d2 - 87
                } else {
                    return Err(());
                };
                let v = 16 * h1 + h2;
                if !(v < 32 && v != 8 && v != 12 && v != 10 && v != 13 && v != 9) {
                    return Err(());
                }
                raw.push(v);
                j = j + 6;
                proof {
                    assert(hex_val(gb[old_j + 4]) == Some(h1));
                    assert(hex_val(gb[old_j + 5]) == Some(h2));
                    assert(unescape_from(gb, old_j) == (match unescape_from(gb, old_j + 6) {
                        Some((rest, e2)) => Some((seq![v] + rest, e2)),
                        None => None,
                    }));
                    assert(raw@ =~= old_raw + seq![v]);
                    if let Some((rest, _)) = unescape_from(gb, old_j + 6) {
                        assert(old_raw + (seq![v] + rest) =~= raw@ + rest);
                    }
                }
            } else {
                let v: u8 = if e == 34 {
                    34
                } else if e == 92 {
                    92
                } else if e == 98 {
                    8
                } else if e == 102 {
                    12
                } else if e == 110 {
                    10
                } else if e == 114 {
                    13
                } else if e == 116 {
                    9
                } else {
                    return Err(());
                };
                raw.push(v);
                j = j + 2;
                proof {
                    assert(unescape_from(gb, old_j) == (match unescape_from(gb, old_j + 2) {
                        Some((rest, e2)) => Some((seq![v] + rest, e2)),
                        None => None,
                    }));
                    assert(raw@ =~= old_raw + seq![v]);
                    if let Some((rest, _)) = unescape_from(gb, old_j + 2) {
                        assert(old_raw + (seq![v] + rest) =~= raw@ + rest);
                    }
                }
            }
        } else if c < 32 {
            return Err(());
        } else {
            raw.push(c);
            j = j + 1;
            proof {
                assert(unescape_from(gb, old_j) == (match unescape_from(gb, old_j + 1) {
                    Some((rest, e2)) => Some((seq![c] + rest, e2)),
                    None => None,
                }));
                assert(raw@ =~= old_raw + seq![c]);
                if let Some((rest, _)) = unescape_from(gb, old_j + 1) {
                    assert(old_raw + (seq![c] + rest) =~= raw@ + rest);
                }
            }
        }
    }
    if j >= bytes.len() {
        return Err(());
    }
    proof {
        assert(gb[j as int] == 34);
        assert(unescape_from(gb, j as int) == Some((Seq::<u8>::empty(), j as int)));
        assert(raw@ + Seq::<u8>::empty() =~= raw@);
    }
    Ok((raw, j))
}

// ---------------------------------------------------------------------------
// The flat-object decoder
// ---------------------------------------------------------------------------
/// The text of the canonical object up to the opening quote of the string
/// value.
pub open spec fn header_bytes(k1: Seq<char>, k2: Seq<char>, b: bool) -> Seq<u8> {
    (seq![123u8] + json_string(encode_utf8(k1)) + seq![58u8]) + bool_bytes(b) + (seq![44u8]
        + json_string(encode_utf8(k2)) + seq![58u8] + seq![34u8])
}

/// Matches the header of the canonical object — `{"<k1>":`, the boolean,
/// `,"<k2>":"` — and returns the boolean with the index where the string
/// region starts.  A failure means no object has these bytes as its text.
#[verifier::rlimit(100)]
fn parse_header(bytes: &Vec<u8>, k1: &str, k2: &str) -> (r: Result<(bool, usize), ()>)
    ensures
        match r {
            Ok((b2, vs)) => {
                &&& vs <= bytes@.len()
                &&& vs as int == header_bytes(k1@, k2@, b2).len()
                &&& bytes@.subrange(0, vs as int) == header_bytes(k1@, k2@, b2)
                &&& forall|b: bool, s: Seq<char>|
                    bytes@ == canonical_object(k1@, k2@, b, s) ==> b == b2
            },
            Err(_) => forall|b: bool, s: Seq<char>| bytes@ != canonical_object(k1@, k2@, b, s),
        },
{
    // `{"<k1>":`
    let mut p1: Vec<u8> = Vec::new();
    p1.push(123);
    write_json_string(&mut p1, k1);
    p1.push(58);
    proof {
        assert(bytes@.len() == bytes.len());
        assert(p1@ == seq![123u8] + json_string(encode_utf8(k1@)) + seq![58u8]);
    }
    if !seg_matches(bytes, 0, &p1) {
        proof {
            assert forall|b: bool, s: Seq<char>| bytes@ != canonical_object(k1@, k2@, b, s) by {
                if bytes@ == canonical_object(k1@, k2@, b, s) {
                    lemma_canonical_layout(k1@, k2@, b, s);
                    assert(bytes@.subrange(0, p1@.len() as int) =~= p1@);
                }
            }
        }
        return Err(());
    }
    let mut off = p1.len();
    proof {
        assert(off <= bytes.len());
    }
    let ghost off0 = off as int;
    // the boolean
    let tru: Vec<u8> = vec![116u8, 114u8, 117u8, 101u8];
    let fal: Vec<u8> = vec![102u8, 97u8, 108u8, 115u8, 101u8];
    proof {
        assert(tru@ =~= bool_bytes(true));
        assert(fal@ =~= bool_bytes(false));
    }
    let parsed_bool: bool;
    if seg_matches(bytes, off, &tru) {
        proof {
            assert(off + 4 <= bytes.len());
        }
        parsed_bool = true;
        off = off + 4;
    } else if seg_matches(bytes, off, &fal) {
        proof {
            assert(off + 5 <= bytes.len());
        }
        parsed_bool = false;
        off = off + 5;
    } else {
        proof {
            assert forall|b: bool, s: Seq<char>| bytes@ != canonical_object(k1@, k2@, b, s) by {
                if bytes@ == canonical_object(k1@, k2@, b, s) {
                    lemma_canonical_layout(k1@, k2@, b, s);
                    assert(bytes@.subrange(off0, off0 + bool_bytes(b).len()) =~= bool_bytes(b));
                }
            }
        }
        return Err(());
    }
    // on a canonical input the hypothesis boolean is the parsed one, since
    // the two boolean texts differ in their first byte
    proof {
        assert forall|b: bool, s: Seq<char>|
            bytes@ == canonical_object(k1@, k2@, b, s) implies b == parsed_bool by {
            lemma_canonical_layout(k1@, k2@, b, s);
            assert(bytes@[off0] == bool_bytes(b)[0]);
            assert(bytes@.subrange(off0, off0 + bool_bytes(parsed_bool).len()) =~= bool_bytes(
                parsed_bool,
            ));
        }
    }
    let ghost bool_end = off as int;
    // `,"<k2>":"`
    let mut p2: Vec<u8> = Vec::new();
    p2.push(44);
    write_json_string(&mut p2, k2);
    p2.push(58);
    p2.push(34);
    proof {
        assert(p2@ == seq![44u8] + json_string(encode_utf8(k2@)) + seq![58u8] + seq![34u8]);
    }
    if !seg_matches(bytes, off, &p2) {
        proof {
            assert forall|b: bool, s: Seq<char>| bytes@ != canonical_object(k1@, k2@, b, s) by {
                if bytes@ == canonical_object(k1@, k2@, b, s) {
                    lemma_canonical_layout(k1@, k2@, b, s);
                    assert(bytes@[off0] == bool_bytes(b)[0]);
                    assert(b == parsed_bool);
                    assert(bytes@.subrange(bool_end, bool_end + p2@.len()) =~= p2@);
                }
            }
        }
        return Err(());
    }
    proof {
        assert(off + p2.len() <= bytes.len());
    }
    off = off + p2.len();
    proof {
        assert(bytes@.subrange(0, off as int) =~= header_bytes(k1@, k2@, parsed_bool));
    }
    Ok((parsed_bool, off))
}

/// Decodes `{"<k1>": bool, "<k2>": string}` from the text the crate's emitter
/// writes for it — compact, fields in this order, standard string escapes.
/// The contract runs both ways: a successful decode means the bytes are
/// exactly the canonical JSON text of the decoded object, and conversely the
/// canonical text of any such object — in particular, any well-formed host
/// verdict — decodes successfully to it.
#[verifier::rlimit(100)]
pub fn parse_bool_str_object(bytes: &Vec<u8>, k1: &str, k2: &str) -> (r: Result<(bool, String), ()>)
    ensures
        r matches Ok((b, s)) ==> bytes@ == canonical_object(k1@, k2@, b, s@),
        forall|b: bool, s: Seq<char>|
            bytes@ == canonical_object(k1@, k2@, b, s) ==> (r matches Ok((b2, s2)) && b2 == b
                && s2@ == s),
{
    broadcast use vstd::utf8::encode_utf8_valid_utf8;
    broadcast use vstd::utf8::encode_utf8_decode_utf8;

    let (parsed_bool, off) = match parse_header(bytes, k1, k2) {
        Ok(pair) => pair,
        Err(()) => {
            return Err(());
        },
    };
    let ghost value_start = off as int;
    // on a canonical input the string region unescapes to the string's bytes
    // and ends right before the closing quote and brace
    proof {
        assert forall|b: bool, s: Seq<char>|
            bytes@ == canonical_object(k1@, k2@, b, s) implies (unescape_from(bytes@, value_start)
            == Some(
            (encode_utf8(s), value_start + escape_from(encode_utf8(s), 0).len() as int),
        ) && bytes@.len() == value_start + escape_from(encode_utf8(s), 0).len() + 2
            && bytes@[bytes@.len() - 1] == 125) by {
            lemma_canonical_layout(k1@, k2@, b, s);
            assert(b == parsed_bool);
            let esc = escape_from(encode_utf8(s), 0);
            assert(bytes@.len() == value_start + esc.len() + 2);
            assert forall|t: int| 0 <= t < esc.len() implies bytes@[value_start + t] == esc[t] by {}
            assert(bytes@[value_start + esc.len()] == 34);
            lemma_unescape_of_escaped(bytes@, value_start, encode_utf8(s), 0);
            assert(encode_utf8(s).skip(0) =~= encode_utf8(s));
        }
    }
    // the string region, escapes undone
    let (value, quote) = match scan_string_region(bytes, off) {
        Ok(pair) => pair,
        Err(()) => {
            proof {
                assert forall|b: bool, s: Seq<char>|
                    bytes@ != canonical_object(k1@, k2@, b, s) by {}
            }
            return Err(());
        },
    };
    // then exactly `"}` to the end
    if !(bytes.len() - quote == 2 && bytes[quote + 1] == 125) {
        proof {
            assert forall|b: bool, s: Seq<char>| bytes@ != canonical_object(k1@, k2@, b, s) by {}
        }
        return Err(());
    }
    let ghost gvalue = value@;
    let ghost gquote = quote as int;
    let parsed = match string_from_utf8(value) {
        Some(parsed) => parsed,
        None => {
            proof {
                assert forall|b: bool, s: Seq<char>|
                    bytes@ != canonical_object(k1@, k2@, b, s) by {
                    if bytes@ == canonical_object(k1@, k2@, b, s) {
                        assert(gvalue == encode_utf8(s));
                        assert(vstd::utf8::valid_utf8(gvalue));
                    }
                }
            }
            return Err(());
        },
    };
    proof {
        // the decoded object re-encodes to exactly these bytes
        lemma_escape_of_unescaped(bytes@, value_start);
        assert(escape_from(gvalue, 0) =~= bytes@.subrange(value_start, gquote));
        assert(encode_utf8(parsed@) == gvalue);
        lemma_canonical_layout(k1@, k2@, parsed_bool, parsed@);
        assert(bytes@ =~= header_bytes(k1@, k2@, parsed_bool) + escape_from(gvalue, 0) + seq![34u8]
            + seq![125u8]);
        assert(bytes@ =~= canonical_object(k1@, k2@, parsed_bool, parsed@));
        // and any object whose canonical text these bytes are is that object
        assert forall|b: bool, s: Seq<char>|
            bytes@ == canonical_object(k1@, k2@, b, s) implies (b == parsed_bool && parsed@
            == s) by {
            assert(gvalue == encode_utf8(s));
            assert(decode_utf8(encode_utf8(s)) == s);
            assert(decode_utf8(encode_utf8(parsed@)) == parsed@);
        }
    }
    Ok((parsed_bool, parsed))
}

} // verus!
