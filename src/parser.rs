use crate::decode::{
    decode_smart, decode_structured, declared_charset, resolve_charset, smart_decode,
    structured_decode,
};
use crate::framing::{body_start, charset_label, is_rfc5424, message_severity, parse_framing};
use crate::raw::{hex_encode, hex_of, lemma_hex_round_trip, unhex};
use crate::severity::Severity;
use crate::text::{chars_of, is_white_space, is_whitespace, string_of};
use vstd::prelude::*;

verus! {

pub open spec fn trim_start(s: Seq<char>) -> Seq<char>
    decreases s.len(),
{
    if s.len() > 0 && is_white_space(s[0]) {
        trim_start(s.drop_first())
    } else {
        s
    }
}

pub open spec fn trim_end(s: Seq<char>) -> Seq<char>
    decreases s.len(),
{
    if s.len() > 0 && is_white_space(s.last()) {
        trim_end(s.drop_last())
    } else {
        s
    }
}

/// `s` without leading and trailing white space.
pub open spec fn trim(s: Seq<char>) -> Seq<char> {
    trim_end(trim_start(s))
}

/// First index of `c` in `s`.
pub open spec fn first_index(s: Seq<char>, c: char) -> Option<int> {
    if exists|i: int| 0 <= i < s.len() && s[i] == c {
        let i = choose|i: int|
            0 <= i < s.len() && s[i] == c && forall|j: int| 0 <= j < i ==> s[j] != c;
        Some(i)
    } else {
        None
    }
}

/// Split a legacy message body into tag and content at its first colon,
/// where the trimmed text before the colon is one non-empty word.
pub open spec fn split_tag(s: Seq<char>) -> (Option<Seq<char>>, Seq<char>) {
    match first_index(s, ':') {
        Some(i) => {
            let t = trim(s.subrange(0, i));
            if t.len() > 0 && !t.contains(' ') {
                (Some(t), trim(s.subrange(i + 1, s.len() as int)))
            } else {
                (None, s)
            }
        },
        None => (None, s),
    }
}

/// Text and encoding label of a message body, by the grammar of its framing.
pub open spec fn decoded_body(b: Seq<u8>) -> (Seq<char>, Seq<char>) {
    let body = b.subrange(body_start(b), b.len() as int);
    if is_rfc5424(b) {
        let declared = match charset_label(b) {
            Some(l) => declared_charset(b.subrange(l.0, l.1)),
            None => None,
        };
        structured_decode(body, declared)
    } else {
        smart_decode(body)
    }
}

pub open spec fn message_tag(b: Seq<u8>) -> Option<Seq<char>> {
    if is_rfc5424(b) {
        None
    } else {
        split_tag(decoded_body(b).0).0
    }
}

pub open spec fn message_content(b: Seq<u8>) -> Seq<char> {
    if is_rfc5424(b) {
        decoded_body(b).0
    } else {
        split_tag(decoded_body(b).0).1
    }
}

pub open spec fn message_encoding(b: Seq<u8>) -> Seq<char> {
    decoded_body(b).1
}

pub open spec fn opt_view(o: Option<String>) -> Option<Seq<char>> {
    match o {
        Some(s) => Some(s@),
        None => None,
    }
}

/// One parsed syslog message.
#[derive(Debug, Clone)]
pub struct SyslogMessage {
    pub severity: Severity,
    /// Local time at which the message was parsed.
    pub timestamp: String,
    /// Never filled: header fields are skipped, not read.
    pub hostname: Option<String>,
    pub tag: Option<String>,
    pub content: String,
    /// The received bytes in hexadecimal.
    pub raw: String,
    /// Which decoding path produced `content`, and why.
    pub encoding: String,
}

impl SyslogMessage {
    /// Everything but the timestamp is what parsing `b` gives.
    pub open spec fn parsed_from(&self, b: Seq<u8>) -> bool {
        &&& self.severity == message_severity(b)
        &&& self.hostname is None
        &&& opt_view(self.tag) == message_tag(b)
        &&& self.content@ == message_content(b)
        &&& self.raw@ == hex_of(b)
        &&& self.encoding@ == message_encoding(b)
    }
}

/// Position of the first white space character after leading white space
/// is skipped from `lo`.
fn skip_white_start(v: &[char], lo: usize, hi: usize) -> (r: usize)
    requires
        lo <= hi <= v@.len(),
    ensures
        lo <= r <= hi,
        trim_start(v@.subrange(lo as int, hi as int)) == v@.subrange(r as int, hi as int),
{
    let mut i: usize = lo;
    while i < hi && is_whitespace(v[i])
        invariant
            lo <= i <= hi <= v@.len(),
            trim_start(v@.subrange(lo as int, hi as int)) == trim_start(
                v@.subrange(i as int, hi as int),
            ),
        decreases hi - i,
    {
        assert(v@.subrange(i as int, hi as int).drop_first() =~= v@.subrange(i + 1, hi as int));
        i = i + 1;
    }
    i
}

fn skip_white_end(v: &[char], lo: usize, hi: usize) -> (r: usize)
    requires
        lo <= hi <= v@.len(),
    ensures
        lo <= r <= hi,
        trim_end(v@.subrange(lo as int, hi as int)) == v@.subrange(lo as int, r as int),
{
    let mut j: usize = hi;
    while j > lo && is_whitespace(v[j - 1])
        invariant
            lo <= j <= hi <= v@.len(),
            trim_end(v@.subrange(lo as int, hi as int)) == trim_end(
                v@.subrange(lo as int, j as int),
            ),
        decreases j - lo,
    {
        assert(v@.subrange(lo as int, j as int).drop_last() =~= v@.subrange(lo as int, j - 1));
        j = j - 1;
    }
    j
}

/// Bounds of `v[lo..hi]` with surrounding white space removed.
fn trim_bounds(v: &[char], lo: usize, hi: usize) -> (r: (usize, usize))
    requires
        lo <= hi <= v@.len(),
    ensures
        lo <= r.0 <= r.1 <= hi,
        trim(v@.subrange(lo as int, hi as int)) == v@.subrange(r.0 as int, r.1 as int),
{
    let a = skip_white_start(v, lo, hi);
    let b = skip_white_end(v, a, hi);
    (a, b)
}

fn find_char(v: &[char], c: char) -> (r: Option<usize>)
    ensures
        match r {
            Some(i) => first_index(v@, c) == Some(i as int) && i < v@.len(),
            None => first_index(v@, c) is None,
        },
{
    let mut i: usize = 0;
    while i < v.len()
        invariant
            i <= v@.len(),
            forall|j: int| 0 <= j < i ==> v@[j] != c,
        decreases v.len() - i,
    {
        if v[i] == c {
            let ghost k = choose|k: int|
                0 <= k < v@.len() && v@[k] == c && forall|j: int| 0 <= j < k ==> v@[j] != c;
            assert(k == i) by {
                if k < i {
                } else if k > i {
                    assert(v@[i as int] == c);
                }
            }
            return Some(i);
        }
        i = i + 1;
    }
    None
}

fn contains_char(v: &[char], lo: usize, hi: usize, c: char) -> (r: bool)
    requires
        lo <= hi <= v@.len(),
    ensures
        r == v@.subrange(lo as int, hi as int).contains(c),
{
    let mut i: usize = lo;
    while i < hi
        invariant
            lo <= i <= hi <= v@.len(),
            forall|j: int| lo <= j < i ==> v@[j] != c,
        decreases hi - i,
    {
        if v[i] == c {
            assert(v@.subrange(lo as int, hi as int)[i - lo] == c);
            return true;
        }
        i = i + 1;
    }
    assert forall|j: int| 0 <= j < hi - lo implies v@.subrange(lo as int, hi as int)[j] != c by {
        assert(v@.subrange(lo as int, hi as int)[j] == v@[lo + j]);
    }
    false
}

/// Split a legacy body into tag and content at its first colon, if the
/// trimmed text before it is a single non-empty word; otherwise no tag and
/// the content as it is.
pub fn extract_tag(content: &str) -> (r: (Option<String>, String))
    ensures
        opt_view(r.0) == split_tag(content@).0,
        r.1@ == split_tag(content@).1,
{
    let chars = chars_of(content);
    let v = chars.as_slice();
    if let Some(colon) = find_char(v, ':') {
        let (a, b) = trim_bounds(v, 0, colon);
        if a < b && !contains_char(v, a, b, ' ') {
            let (c, d) = trim_bounds(v, colon + 1, v.len());
            let tag = string_of(&v[a..b]);
            let rest = string_of(&v[c..d]);
            return (Some(tag), rest);
        }
    }
    (None, content.to_owned())
}

/// Relies on `chrono::Local::now`: the local time, formatted with
/// milliseconds. Nothing is known of its value.
#[verifier::external_body]
fn receipt_time() -> (r: String) {
    chrono::Local::now().format("%Y-%m-%dT%H:%M:%S%.3fZ").to_string()
}

/// Parse one datagram, stamping it with the given receipt time.
pub fn parse_syslog_at(bytes: &[u8], timestamp: String) -> (r: SyslogMessage)
    ensures
        r.parsed_from(bytes@),
        r.timestamp == timestamp,
{
    let framing = parse_framing(bytes);
    let body = &bytes[framing.body_start..bytes.len()];
    let (content, encoding) = if framing.rfc5424 {
        let declared = match framing.label {
            Some((s, e)) => resolve_charset(&bytes[s..e]),
            None => None,
        };
        decode_structured(body, declared)
    } else {
        decode_smart(body)
    };
    let (tag, content) = if framing.rfc5424 {
        (None, content)
    } else {
        extract_tag(content.as_str())
    };
    SyslogMessage {
        severity: framing.severity,
        timestamp,
        hostname: None,
        tag,
        content,
        raw: hex_encode(bytes),
        encoding,
    }
}

/// Parse one datagram, stamped with the local time of parsing. Defined on
/// every input: malformed framing and undecodable text degrade, never fail.
pub fn parse_syslog(bytes: &[u8]) -> (r: SyslogMessage)
    ensures
        r.parsed_from(bytes@),
{
    parse_syslog_at(bytes, receipt_time())
}

/// The `raw` field of a parsed message decodes back to the exact input.
pub proof fn lemma_raw_recovers_input(m: SyslogMessage, b: Seq<u8>)
    requires
        m.parsed_from(b),
    ensures
        unhex(m.raw@) == b,
{
    lemma_hex_round_trip(b);
}

/// Parsing the bytes recovered from a message's `raw` field again gives the
/// same severity, tag, content and encoding label.
pub proof fn lemma_reparse_raw(m: SyslogMessage, b: Seq<u8>, again: SyslogMessage)
    requires
        m.parsed_from(b),
        again.parsed_from(unhex(m.raw@)),
    ensures
        again.severity == m.severity,
        opt_view(again.tag) == opt_view(m.tag),
        again.content@ == m.content@,
        again.encoding@ == m.encoding@,
{
    lemma_hex_round_trip(b);
}

} // verus!
