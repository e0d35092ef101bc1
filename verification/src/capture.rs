//! The capture normalizer: turns the formats read out of one exclusive
//! clipboard session into at most one record ready for persistence, deriving
//! the record's content hash from the bytes of the first payload and
//! dropping the whole event while echo suppression is raised.

use vstd::prelude::*;

use crate::models::{ClipboardMsg, ClipboardPayload};
use crate::text::{dec_chars, hex_chars, u32_to_dec, u64_to_hex, chars_to_string};

verus! {

pub const HASH_SEED: u64 = 0xcbf29ce484222325;

pub const HASH_PRIME: u64 = 0x100000001b3;

/// One step of the rolling content hash: fold one byte into the state.
pub open spec fn hash_step(h: u64, b: u8) -> u64 {
    vstd::wrapping::u64_specs::wrapping_mul(h ^ (b as u64), HASH_PRIME)
}

/// The rolling content hash folded over `data` starting at index `i` with
/// state `h`.
pub open spec fn hash_from(data: Seq<u8>, i: int, h: u64) -> u64
    decreases data.len() - i,
{
    if 0 <= i < data.len() {
        hash_from(data, i + 1, hash_step(h, data[i]))
    } else {
        h
    }
}

/// The content hash of a payload's bytes: a deterministic function of the
/// bytes alone, so that two captures of the same primary payload collide.
pub open spec fn content_hash_num(data: Seq<u8>) -> u64 {
    hash_from(data, 0, HASH_SEED)
}

/// The content hash rendered as the record's identity string.
pub open spec fn content_hash_chars(data: Seq<u8>) -> Seq<char> {
    hex_chars(content_hash_num(data) as int)
}

/// The deterministic identity string of a payload's bytes.
pub fn content_hash(data: &Vec<u8>) -> (r: String)
    ensures
        r@ == content_hash_chars(data@),
{
    let mut h: u64 = HASH_SEED;
    let mut i: usize = 0;
    while i < data.len()
        invariant
            i <= data.len(),
            hash_from(data@, i as int, h) == content_hash_num(data@),
        decreases data.len() - i,
    {
        h = (h ^ (data[i] as u64)).wrapping_mul(HASH_PRIME);
        i = i + 1;
    }
    let digits = u64_to_hex(h);
    chars_to_string(&digits)
}

/// The label stored for a clipboard format the port could not name: a few
/// well-known numeric formats map to their fixed names, anything else gets
/// a generic numeric label.
pub open spec fn well_known_label(id: u32) -> Seq<char> {
    if id == 1 {
        "CF_TEXT"@
    } else if id == 2 {
        "CF_BITMAP"@
    } else if id == 13 {
        "CF_UNICODETEXT"@
    } else if id == 15 {
        "CF_HDROP"@
    } else {
        "ID_"@ + dec_chars(id as int)
    }
}

/// One format as read from the clipboard port: its numeric identifier, the
/// name the port's lookup resolved (when it resolved a nonempty one), and
/// the raw bytes.
pub struct RawFormat {
    pub format_id: u32,
    pub port_name: Option<String>,
    pub data: Vec<u8>,
}

/// The format name a capture stores: the port's resolved name when there is
/// one, the well-known label otherwise.
pub open spec fn format_label(format_id: u32, port_name: Option<String>) -> Seq<char> {
    match port_name {
        Some(n) => n@,
        None => well_known_label(format_id),
    }
}

/// Resolve the stored name for one format.
pub fn resolve_format_name(format_id: u32, port_name: Option<String>) -> (r: String)
    ensures
        r@ == format_label(format_id, port_name),
{
    match port_name {
        Some(n) => n,
        None => {
            if format_id == 1 {
                String::from_str("CF_TEXT")
            } else if format_id == 2 {
                String::from_str("CF_BITMAP")
            } else if format_id == 13 {
                String::from_str("CF_UNICODETEXT")
            } else if format_id == 15 {
                String::from_str("CF_HDROP")
            } else {
                let digits = u32_to_dec(format_id);
                String::from_str("ID_").concat(chars_to_string(&digits).as_str())
            }
        },
    }
}

/// Whether a clipboard event is turned into a record at all: only when echo
/// suppression is down and the session yielded at least one payload.
pub open spec fn capture_allowed(suppressed: bool, n_formats: nat) -> bool {
    !suppressed && n_formats > 0
}

/// Normalize one clipboard session into at most one record. While echo
/// suppression is raised the event is dropped entirely; a session with no
/// readable format yields nothing; otherwise the record's hash is derived
/// from the first payload's bytes alone and every payload is kept in
/// enumeration order under its resolved name.
pub fn normalize_capture(
    formats: Vec<RawFormat>,
    owner: String,
    fg_title: String,
    exe_path: String,
    suppressed: bool,
) -> (r: Option<ClipboardMsg>)
    ensures
        r is Some <==> capture_allowed(suppressed, formats@.len()),
        r matches Some(msg) ==> {
            &&& msg.owner@ == owner@
            &&& msg.fg_title@ == fg_title@
            &&& msg.exe_path@ == exe_path@
            &&& msg.hash@ == content_hash_chars(formats@[0].data@)
            &&& msg.payloads@.len() == formats@.len()
            &&& forall|i: int|
                0 <= i < formats@.len() ==> {
                    &&& (#[trigger] msg.payloads@[i])@.format_id == formats@[i].format_id
                    &&& msg.payloads@[i]@.data == formats@[i].data@
                    &&& msg.payloads@[i]@.format_name == format_label(formats@[i].format_id, formats@[i].port_name)
                }
        },
{
    if suppressed {
        return None;
    }
    if formats.len() == 0 {
        return None;
    }
    let hash = content_hash(&formats[0].data);
    let ghost all = formats@;
    let mut rest = formats;
    let mut payloads: Vec<ClipboardPayload> = Vec::new();
    while rest.len() > 0
        invariant
            payloads@.len() + rest@.len() == all.len(),
            rest@ == all.skip(payloads@.len() as int),
            forall|i: int|
                0 <= i < payloads@.len() ==> {
                    &&& (#[trigger] payloads@[i])@.format_id == all[i].format_id
                    &&& payloads@[i]@.data == all[i].data@
                    &&& payloads@[i]@.format_name == format_label(all[i].format_id, all[i].port_name)
                },
        decreases rest@.len(),
    {
        let ghost k = payloads@.len() as int;
        let f = rest.remove(0);
        proof {
            assert(f == all[k]);
            assert(rest@ =~= all.skip(k + 1));
        }
        let name = resolve_format_name(f.format_id, f.port_name);
        payloads.push(ClipboardPayload { format_id: f.format_id, format_name: name, data: f.data });
    }
    Some(ClipboardMsg { owner, fg_title, exe_path, hash, payloads })
}

} // verus!
