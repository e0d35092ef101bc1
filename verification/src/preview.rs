//! Preview derivation: the truncated text rendering of a record's primary
//! text payload, computed at read time and never persisted.
//!
//! The payload bytes are first decoded as little-endian UTF-16 (the native
//! text encoding of the platform the bytes were captured on), discarding a
//! trailing unpaired byte; when that fails, the bytes are decoded as UTF-8
//! with invalid sequences replaced, never an error. The result is cut to
//! its first fifty characters. A record with no plain-text payload gets a
//! fixed placeholder instead.

use vstd::prelude::*;

use crate::model::PayloadModel;
use crate::models::{ClipboardPayload, payload_views};
use crate::text::{chars_to_string, char_from_u32};

verus! {

/// How many characters a preview keeps.
pub const PREVIEW_CHARS: usize = 50;

/// The UTF-16 code units of a byte sequence, little endian, a trailing odd
/// byte discarded.
pub open spec fn units_of(data: Seq<u8>) -> Seq<u16> {
    Seq::new((data.len() / 2) as nat, |i: int| (data[2 * i] + data[2 * i + 1] * 256) as u16)
}

/// UTF-16 decoding: `None` exactly when the units contain an unpaired
/// surrogate; otherwise every basic unit becomes its character and every
/// surrogate pair becomes its supplementary character.
pub open spec fn utf16_decode(units: Seq<u16>) -> Option<Seq<char>>
    decreases units.len(),
{
    if units.len() == 0 {
        Some(Seq::empty())
    } else if units[0] < 0xD800 || units[0] >= 0xE000 {
        match utf16_decode(units.skip(1)) {
            Some(cs) => Some(seq![units[0] as char] + cs),
            None => None,
        }
    } else if units[0] < 0xDC00 && units.len() >= 2 && 0xDC00 <= units[1] < 0xE000 {
        let c = (0x10000 + (units[0] - 0xD800) * 0x400 + (units[1] - 0xDC00)) as char;
        match utf16_decode(units.skip(2)) {
            Some(cs) => Some(seq![c] + cs),
            None => None,
        }
    } else {
        None
    }
}

/// What `String::from_utf8_lossy` returns for these bytes.
pub uninterp spec fn utf8_lossy_chars(data: Seq<u8>) -> Seq<char>;

/// Relies on `String::from_utf8_lossy`: a pure function of the bytes that
/// decodes valid UTF-8 exactly and replaces every invalid sequence with the
/// replacement character, so its result is empty only for empty input.
#[verifier::external_body]
fn utf8_lossy(data: &Vec<u8>) -> (r: Vec<char>)
    ensures
        r@ == utf8_lossy_chars(data@),
        data@.len() > 0 ==> r@.len() > 0,
        vstd::utf8::valid_utf8(data@) ==> r@ == vstd::utf8::decode_utf8(data@),
{
    String::from_utf8_lossy(data).chars().collect()
}

/// A sequence cut to the first `PREVIEW_CHARS` characters.
pub open spec fn truncated(cs: Seq<char>) -> Seq<char> {
    if cs.len() <= PREVIEW_CHARS {
        cs
    } else {
        cs.take(PREVIEW_CHARS as int)
    }
}

/// The preview text of one payload's bytes.
pub open spec fn preview_chars(data: Seq<u8>) -> Seq<char> {
    match utf16_decode(units_of(data)) {
        Some(cs) => truncated(cs),
        None => truncated(utf8_lossy_chars(data)),
    }
}

/// The first payload carrying a plain-text format (`CF_TEXT` is 1,
/// `CF_UNICODETEXT` is 13), in stored order.
pub open spec fn first_text_data(payloads: Seq<PayloadModel>) -> Option<Seq<u8>>
    decreases payloads.len(),
{
    if payloads.len() == 0 {
        None
    } else if payloads[0].format_id == 13 || payloads[0].format_id == 1 {
        Some(payloads[0].data)
    } else {
        first_text_data(payloads.skip(1))
    }
}

/// The preview of a whole record: derived from its first text payload, or
/// the fixed placeholder when it has none.
pub open spec fn clip_preview(payloads: Seq<PayloadModel>) -> Seq<char> {
    match first_text_data(payloads) {
        Some(data) => preview_chars(data),
        None => "bins"@,
    }
}

/// The little-endian UTF-16 code units of `data`.
fn bytes_to_units(data: &Vec<u8>) -> (r: Vec<u16>)
    ensures
        r@ == units_of(data@),
{
    let n = data.len() / 2;
    let mut units: Vec<u16> = Vec::new();
    let mut i: usize = 0;
    while i < n
        invariant
            data@.len() <= usize::MAX,
            n == data@.len() / 2,
            i <= n,
            units@ == units_of(data@).take(i as int),
        decreases n - i,
    {
        proof {
            assert(2 * (i as int) + 1 < data@.len());
        }
        let lo = data[2 * i];
        let hi = data[2 * i + 1];
        let u: u16 = lo as u16 + (hi as u16) * 256;
        units.push(u);
        proof {
            assert(units@ =~= units_of(data@).take(i + 1));
        }
        i = i + 1;
    }
    proof {
        assert(units@ =~= units_of(data@));
    }
    units
}

/// Decode UTF-16 code units, reporting `None` on any unpaired surrogate.
fn decode_units(units: &Vec<u16>) -> (r: Option<Vec<char>>)
    ensures
        r is Some <==> utf16_decode(units@) is Some,
        r matches Some(v) ==> Some(v@) == utf16_decode(units@),
{
    let mut out: Vec<char> = Vec::new();
    let mut i: usize = 0;
    proof {
        assert(units@.skip(0) =~= units@);
    }
    while i < units.len()
        invariant
            i <= units@.len(),
            utf16_decode(units@) matches Some(cs) ==> {
                &&& utf16_decode(units@.skip(i as int)) matches Some(rest)
                &&& cs == out@ + rest
            },
            utf16_decode(units@.skip(i as int)) is Some ==> utf16_decode(units@) is Some,
        decreases units@.len() - i,
    {
        let ghost tail = units@.skip(i as int);
        let u = units[i];
        if u < 0xD800 || u >= 0xE000 {
            out.push(char_from_u32(u as u32));
            proof {
                assert(tail.skip(1) =~= units@.skip(i + 1));
            }
            i = i + 1;
        } else if u < 0xDC00 && i + 1 < units.len() {
            let u2 = units[i + 1];
            if 0xDC00 <= u2 && u2 < 0xE000 {
                let code: u32 = 0x10000 + (u as u32 - 0xD800) * 0x400 + (u2 as u32 - 0xDC00);
                out.push(char_from_u32(code));
                proof {
                    assert(tail[1] == units@[i + 1]);
                    assert(tail.skip(2) =~= units@.skip(i + 2));
                }
                i = i + 2;
            } else {
                proof {
                    assert(tail[1] == units@[i + 1]);
                    assert(utf16_decode(tail) is None);
                }
                return None;
            }
        } else {
            proof {
                if u < 0xDC00 {
                    assert(tail.len() == 1);
                }
                assert(utf16_decode(tail) is None);
            }
            return None;
        }
    }
    proof {
        assert(units@.skip(units@.len() as int) =~= Seq::<u16>::empty());
        assert(units@.skip(i as int) =~= Seq::<u16>::empty());
    }
    Some(out)
}

/// The preview text of one payload's bytes: UTF-16 first, lossy UTF-8 on
/// failure — never an error, and never empty when a decode fell back on
/// nonempty bytes — cut to the first fifty characters.
pub fn make_preview(data: &Vec<u8>) -> (r: String)
    ensures
        r@ == preview_chars(data@),
        utf16_decode(units_of(data@)) is None && data@.len() > 0 ==> r@.len() > 0,
{
    let units = bytes_to_units(data);
    let decoded = decode_units(&units);
    let mut chars: Vec<char> = match decoded {
        Some(v) => v,
        None => utf8_lossy(data),
    };
    if chars.len() > PREVIEW_CHARS {
        chars.truncate(PREVIEW_CHARS);
    }
    chars_to_string(&chars)
}

/// Derive the preview and the no-text flag for one record's payload rows.
pub fn make_clip_preview(payloads: &Vec<ClipboardPayload>) -> (r: (String, bool))
    ensures
        r.0@ == clip_preview(payload_views(payloads@)),
        r.1 == (first_text_data(payload_views(payloads@)) is None),
{
    let ghost views = payload_views(payloads@);
    let mut i: usize = 0;
    proof {
        assert(views.skip(0) =~= views);
    }
    while i < payloads.len()
        invariant
            i <= payloads@.len(),
            views == payload_views(payloads@),
            first_text_data(views.skip(i as int)) == first_text_data(views),
            forall|k: int| 0 <= k < i ==> !((#[trigger] views[k]).format_id == 13
                || views[k].format_id == 1),
        decreases payloads@.len() - i,
    {
        let p = &payloads[i];
        if p.format_id == 13 || p.format_id == 1 {
            proof {
                assert(views.skip(i as int)[0] == views[i as int]);
                assert(first_text_data(views) == Some(views[i as int].data));
            }
            let s = make_preview(&p.data);
            return (s, false);
        }
        proof {
            assert(views.skip(i as int)[0] == views[i as int]);
            assert(views.skip(i as int).skip(1) =~= views.skip(i + 1));
        }
        i = i + 1;
    }
    proof {
        assert(views.skip(i as int) =~= Seq::<PayloadModel>::empty());
        assert(first_text_data(views) is None);
    }
    (String::from_str("bins"), true)
}

} // verus!
