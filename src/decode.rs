use crate::charset::{Charset, charset_for_label, decoded_text, guessed_charset};
use crate::text::{push_str, to_upper, upper_of, utf8_text};
use vstd::prelude::*;
use vstd::utf8::{decode_utf8, valid_utf8};

verus! {

/// Whether `b` starts with the UTF-8 byte-order mark `EF BB BF`.
pub open spec fn has_bom(b: Seq<u8>) -> bool {
    b.len() >= 3 && b[0] == 0xEFu8 && b[1] == 0xBBu8 && b[2] == 0xBFu8
}

pub open spec fn strip_bom(b: Seq<u8>) -> Seq<u8> {
    b.subrange(3, b.len() as int)
}

/// The generic cascade: empty input, then a byte-order mark, then valid
/// UTF-8, then a statistical guess. Gives the text and a label naming the
/// path taken.
pub open spec fn smart_decode(b: Seq<u8>) -> (Seq<char>, Seq<char>) {
    if b.len() == 0 {
        (Seq::empty(), "Empty"@)
    } else if has_bom(b) {
        (decoded_text("UTF-8"@, strip_bom(b)), "UTF-8 (BOM)"@)
    } else if valid_utf8(b) {
        (decode_utf8(b), "UTF-8"@)
    } else {
        (decoded_text(guessed_charset(b), b), guessed_charset(b))
    }
}

/// Label of a body decoded under a charset declared in structured data.
pub open spec fn declared_label(charset: Seq<char>, bom: bool) -> Seq<char> {
    charset + if bom {
        " (MSG-SD/BOM-Detected)"@
    } else {
        " (MSG-SD/BOM-Missing)"@
    }
}

/// Decoding of an RFC 5424 body: a declared charset is trusted (a leading
/// byte-order mark is dropped first), else a byte-order mark means UTF-8,
/// else valid UTF-8 is taken as is, else the generic cascade guesses.
pub open spec fn structured_decode(b: Seq<u8>, declared: Option<Seq<char>>) -> (
    Seq<char>,
    Seq<char>,
) {
    match declared {
        Some(cs) => if has_bom(b) {
            (decoded_text(cs, strip_bom(b)), declared_label(cs, true))
        } else {
            (decoded_text(cs, b), declared_label(cs, false))
        },
        None => if has_bom(b) {
            (decoded_text("UTF-8"@, strip_bom(b)), "UTF-8 (MSG-UTF8/BOM)"@)
        } else if valid_utf8(b) {
            (decode_utf8(b), "UTF-8 (Implicit)"@)
        } else {
            (smart_decode(b).0, smart_decode(b).1 + " (Guess)"@)
        },
    }
}

/// The charset that a structured-data label declares: `MSG-UTF8` in any
/// case means UTF-8, any other label is looked up among the standard names.
pub open spec fn declared_charset(label: Seq<u8>) -> Option<Seq<char>> {
    if valid_utf8(label) && upper_of(decode_utf8(label)) == "MSG-UTF8"@ {
        Some("UTF-8"@)
    } else {
        charset_for_label(label)
    }
}

fn starts_with_bom(b: &[u8]) -> (r: bool)
    ensures
        r == has_bom(b@),
{
    b.len() >= 3 && b[0] == 0xEF && b[1] == 0xBB && b[2] == 0xBF
}

fn decode_empty(b: &[u8]) -> (r: Option<(String, String)>)
    ensures
        match r {
            Some(p) => b@.len() == 0 && (p.0@, p.1@) == smart_decode(b@),
            None => b@.len() != 0,
        },
{
    if b.len() == 0 {
        Some((String::new(), "Empty".to_owned()))
    } else {
        None
    }
}

fn decode_after_bom(b: &[u8]) -> (r: Option<String>)
    ensures
        match r {
            Some(t) => has_bom(b@) && t@ == decoded_text("UTF-8"@, strip_bom(b@)),
            None => !has_bom(b@),
        },
{
    if starts_with_bom(b) {
        Some(Charset::utf8().decode(&b[3..b.len()]))
    } else {
        None
    }
}

/// The generic decoding cascade, tried in order: empty input, a UTF-8
/// byte-order mark, valid UTF-8, and last a statistical guess.
pub fn decode_smart(b: &[u8]) -> (r: (String, String))
    ensures
        (r.0@, r.1@) == smart_decode(b@),
{
    if let Some(p) = decode_empty(b) {
        return p;
    }
    if let Some(t) = decode_after_bom(b) {
        return (t, "UTF-8 (BOM)".to_owned());
    }
    if let Some(t) = utf8_text(b) {
        return (t, "UTF-8".to_owned());
    }
    let cs = Charset::guess(b);
    (cs.decode(b), cs.name())
}

/// The label of a body decoded under a declared charset.
pub fn sd_encoding_label(charset: &str, bom: bool) -> (r: String)
    ensures
        r@ == declared_label(charset@, bom),
{
    let mut label = charset.to_owned();
    if bom {
        push_str(&mut label, " (MSG-SD/BOM-Detected)");
    } else {
        push_str(&mut label, " (MSG-SD/BOM-Missing)");
    }
    label
}

/// Decode an RFC 5424 body, given the charset its structured data declares.
pub fn decode_structured(b: &[u8], declared: Option<Charset>) -> (r: (String, String))
    ensures
        (r.0@, r.1@) == structured_decode(
            b@,
            match declared {
                Some(c) => Some(c@),
                None => None,
            },
        ),
{
    let bom = starts_with_bom(b);
    match declared {
        Some(cs) => {
            let payload = if bom {
                &b[3..b.len()]
            } else {
                b
            };
            assert(bom ==> payload@ == strip_bom(b@));
            let name = cs.name();
            (cs.decode(payload), sd_encoding_label(name.as_str(), bom))
        },
        None => {
            if let Some(t) = decode_after_bom(b) {
                return (t, "UTF-8 (MSG-UTF8/BOM)".to_owned());
            }
            if let Some(t) = utf8_text(b) {
                return (t, "UTF-8 (Implicit)".to_owned());
            }
            let (text, label) = decode_smart(b);
            let mut guess_label = label;
            push_str(&mut guess_label, " (Guess)");
            (text, guess_label)
        },
    }
}

/// The charset that a structured-data `charset` label declares.
pub fn resolve_charset(label: &[u8]) -> (r: Option<Charset>)
    ensures
        match r {
            Some(c) => declared_charset(label@) == Some(c@),
            None => declared_charset(label@) is None,
        },
{
    if let Some(text) = utf8_text(label) {
        let upper = to_upper(text.as_str());
        if is_utf8_marker(upper.as_str()) {
            return Some(Charset::utf8());
        }
    }
    Charset::for_label(label)
}

/// Whether an upper-cased label is the `MSG-UTF8` marker.
pub fn is_utf8_marker(upper: &str) -> (r: bool)
    ensures
        r == (upper@ == "MSG-UTF8"@),
{
    upper.to_owned() == "MSG-UTF8".to_owned()
}

} // verus!
