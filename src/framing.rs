use crate::severity::{Severity, severity_of};
use vstd::prelude::*;

verus! {

pub const LT: u8 = 60;
pub const GT: u8 = 62;
pub const SPACE: u8 = 32;
pub const DASH: u8 = 45;
pub const PLUS: u8 = 43;
pub const QUOTE: u8 = 34;
pub const OPEN_BRACKET: u8 = 91;
pub const CLOSE_BRACKET: u8 = 93;
pub const DIGIT_ZERO: u8 = 48;
pub const DIGIT_NINE: u8 = 57;

/// First index `i >= from` with `b[i] == x`.
pub open spec fn find_from(b: Seq<u8>, from: int, x: u8) -> Option<int>
    decreases b.len() - from,
{
    if from < 0 || from >= b.len() {
        None
    } else if b[from] == x {
        Some(from)
    } else {
        find_from(b, from + 1, x)
    }
}

/// First index `i >= from` at which `p` occurs in `s`.
pub open spec fn find_pattern(s: Seq<u8>, p: Seq<u8>, from: int) -> Option<int>
    decreases s.len() + 1 - from,
{
    if from < 0 || from + p.len() > s.len() {
        None
    } else if s.subrange(from, from + p.len()) == p {
        Some(from)
    } else {
        find_pattern(s, p, from + 1)
    }
}

pub open spec fn is_digit(c: u8) -> bool {
    DIGIT_ZERO <= c <= DIGIT_NINE
}

pub open spec fn all_digits(s: Seq<u8>) -> bool {
    forall|i: int| 0 <= i < s.len() ==> is_digit(#[trigger] s[i])
}

/// Decimal value of a string of ASCII digits.
pub open spec fn digits_value(s: Seq<u8>) -> int
    decreases s.len(),
{
    if s.len() == 0 {
        0
    } else {
        digits_value(s.drop_last()) * 10 + (s.last() - 48)
    }
}

/// What reading `s` as a `u8` in decimal gives: an optional `+`, then at
/// least one digit, and a value of at most 255.
pub open spec fn pri_value(s: Seq<u8>) -> Option<int> {
    let digits = if s.len() > 0 && s[0] == PLUS { s.drop_first() } else { s };
    if digits.len() > 0 && all_digits(digits) && digits_value(digits) <= 255 {
        Some(digits_value(digits))
    } else {
        None
    }
}

/// Index of the `>` that closes a leading `<`, if any.
pub open spec fn pri_close(b: Seq<u8>) -> Option<int> {
    if b.len() > 0 && b[0] == LT {
        find_from(b, 0, GT)
    } else {
        None
    }
}

/// Severity of a message: from its PRI where that reads as a number,
/// otherwise Informational.
pub open spec fn message_severity(b: Seq<u8>) -> Severity {
    match pri_close(b) {
        Some(p) => match pri_value(b.subrange(1, p)) {
            Some(v) => severity_of(v),
            None => Severity::Informational,
        },
        None => Severity::Informational,
    }
}

/// Where the text after the PRI begins.
pub open spec fn after_pri(b: Seq<u8>) -> int {
    match pri_close(b) {
        Some(p) => p + 1,
        None => 0,
    }
}

/// The space that ends an RFC 5424 VERSION field, if the message has one:
/// a digit right after the PRI, followed somewhere by a space.
pub open spec fn version_space(b: Seq<u8>) -> Option<int> {
    let c = after_pri(b);
    if c < b.len() && is_digit(b[c]) {
        find_from(b, c, SPACE)
    } else {
        None
    }
}

pub open spec fn is_rfc5424(b: Seq<u8>) -> bool {
    version_space(b) is Some
}

/// The cursor after skipping up to `n` space-terminated fields from `c`,
/// stopping early where no space follows.
pub open spec fn skip_fields(b: Seq<u8>, c: int, n: nat) -> int
    decreases n,
{
    if n == 0 {
        c
    } else {
        match find_from(b, c, SPACE) {
            Some(sp) => skip_fields(b, sp + 1, (n - 1) as nat),
            None => c,
        }
    }
}

/// Where the structured data of an RFC 5424 message is expected: after
/// VERSION, TIMESTAMP, HOSTNAME, APP-NAME, PROCID and MSGID.
pub open spec fn sd_start(b: Seq<u8>) -> int {
    match version_space(b) {
        Some(v) => skip_fields(b, v + 1, 5),
        None => after_pri(b),
    }
}

/// Scan for the bracket that brings the nesting depth back to zero.
pub open spec fn sd_scan(s: Seq<u8>, i: int, depth: int) -> Option<int>
    decreases s.len() - i,
{
    if i < 0 || i >= s.len() {
        None
    } else if s[i] == OPEN_BRACKET {
        sd_scan(s, i + 1, depth + 1)
    } else if s[i] == CLOSE_BRACKET {
        if depth - 1 == 0 {
            Some(i + 1)
        } else {
            sd_scan(s, i + 1, depth - 1)
        }
    } else {
        sd_scan(s, i + 1, depth)
    }
}

/// One past the bracket that closes the structured-data block at the start
/// of `s`, if it is balanced.
pub open spec fn sd_length(s: Seq<u8>) -> Option<int> {
    sd_scan(s, 0, 0)
}

/// The span of the structured-data block of an RFC 5424 message, if any.
pub open spec fn sd_span(b: Seq<u8>) -> Option<(int, int)> {
    let c = sd_start(b);
    if is_rfc5424(b) && c < b.len() && b[c] == OPEN_BRACKET {
        match sd_length(b.subrange(c, b.len() as int)) {
            Some(e) => Some((c, c + e)),
            None => None,
        }
    } else {
        None
    }
}

pub open spec fn starts_nil_sd(b: Seq<u8>, c: int) -> bool {
    0 <= c && c + 2 <= b.len() && b[c] == DASH && b[c + 1] == SPACE
}

/// Cursor after the structured data: past the block, past a nil `- `
/// marker, or unmoved.
pub open spec fn after_sd(b: Seq<u8>) -> int {
    let c = sd_start(b);
    match sd_span(b) {
        Some(span) => span.1,
        None => if c < b.len() && b[c] == OPEN_BRACKET {
            c
        } else if starts_nil_sd(b, c) {
            c + 2
        } else {
            c
        },
    }
}

/// Where the message body begins.
pub open spec fn body_start(b: Seq<u8>) -> int {
    if is_rfc5424(b) {
        let c = after_sd(b);
        if c < b.len() && b[c] == SPACE {
            c + 1
        } else {
            c
        }
    } else {
        after_pri(b)
    }
}

/// The bytes `charset="`.
pub open spec fn charset_key() -> Seq<u8> {
    seq![99u8, 104u8, 97u8, 114u8, 115u8, 101u8, 116u8, 61u8, 34u8]
}

/// The span of a `charset="..."` label inside a structured-data block that
/// is valid UTF-8.
pub open spec fn label_in_sd(sd: Seq<u8>) -> Option<(int, int)> {
    if vstd::utf8::valid_utf8(sd) {
        match find_pattern(sd, charset_key(), 0) {
            Some(k) => match find_from(sd, k + 9, QUOTE) {
                Some(q) => Some((k + 9, q)),
                None => None,
            },
            None => None,
        }
    } else {
        None
    }
}

/// The span of the declared charset label in a message, if any.
pub open spec fn charset_label(b: Seq<u8>) -> Option<(int, int)> {
    match sd_span(b) {
        Some(span) => match label_in_sd(b.subrange(span.0, span.1)) {
            Some(l) => Some((span.0 + l.0, span.0 + l.1)),
            None => None,
        },
        None => None,
    }
}

/// How a message is framed: what the decoding of its body needs to know.
#[derive(Debug, Clone, Copy, PartialEq, Eq)]
pub struct Framing {
    pub severity: Severity,
    pub rfc5424: bool,
    /// Start and end of the declared charset label.
    pub label: Option<(usize, usize)>,
    pub body_start: usize,
}

impl Framing {
    pub open spec fn describes(&self, b: Seq<u8>) -> bool {
        &&& self.severity == message_severity(b)
        &&& self.rfc5424 == is_rfc5424(b)
        &&& self.body_start as int == body_start(b)
        &&& match self.label {
            Some(l) => charset_label(b) == Some((l.0 as int, l.1 as int)),
            None => charset_label(b) is None,
        }
    }
}


/// First position at or after `from` that holds `x`.
pub fn find_byte(b: &[u8], from: usize, x: u8) -> (r: Option<usize>)
    ensures
        match r {
            Some(i) => find_from(b@, from as int, x) == Some(i as int) && from <= i < b.len()
                && b@[i as int] == x,
            None => find_from(b@, from as int, x) is None,
        },
{
    let mut i: usize = from;
    while i < b.len()
        invariant
            from <= i,
            find_from(b@, from as int, x) == find_from(b@, i as int, x),
        decreases b.len() - i,
    {
        if b[i] == x {
            return Some(i);
        }
        i = i + 1;
    }
    None
}

/// Whether `p` occurs in `s` at position `at`.
fn occurs_at(s: &[u8], at: usize, p: &[u8]) -> (r: bool)
    ensures
        r == (at as int + p@.len() <= s@.len() && s@.subrange(at as int, at + p@.len()) == p@),
{
    if at > s.len() || p.len() > s.len() - at {
        return false;
    }
    let mut j: usize = 0;
    while j < p.len()
        invariant
            at + p.len() <= s.len(),
            j <= p.len(),
            forall|k: int| 0 <= k < j ==> s@[at + k] == p@[k],
        decreases p.len() - j,
    {
        if s[at + j] != p[j] {
            assert(s@.subrange(at as int, at + p@.len())[j as int] != p@[j as int]);
            return false;
        }
        j = j + 1;
    }
    assert(s@.subrange(at as int, at + p@.len()) =~= p@);
    true
}

/// First position at which `p` occurs in `s`.
fn find_bytes(s: &[u8], p: &[u8]) -> (r: Option<usize>)
    ensures
        match r {
            Some(k) => find_pattern(s@, p@, 0) == Some(k as int) && k + p.len() <= s.len(),
            None => find_pattern(s@, p@, 0) is None,
        },
{
    if p.len() > s.len() {
        return None;
    }
    let last: usize = s.len() - p.len();
    let mut k: usize = 0;
    while k <= last
        invariant
            last + p@.len() == s@.len(),
            k <= last,
            find_pattern(s@, p@, 0) == find_pattern(s@, p@, k as int),
        decreases last - k,
    {
        if occurs_at(s, k, p) {
            return Some(k);
        }
        if k == last {
            assert(find_pattern(s@, p@, k + 1) is None);
            return None;
        }
        k = k + 1;
    }
    None
}

proof fn lemma_digits_value_nonneg(s: Seq<u8>)
    requires
        all_digits(s),
    ensures
        digits_value(s) >= 0,
    decreases s.len(),
{
    if s.len() > 0 {
        assert(all_digits(s.drop_last()));
        lemma_digits_value_nonneg(s.drop_last());
        assert(is_digit(s[s.len() - 1]));
    }
}

/// Read `s` as a `u8` in decimal, as `str::parse::<u8>` does.
pub fn parse_pri(s: &[u8]) -> (r: Option<u8>)
    ensures
        match r {
            Some(v) => pri_value(s@) == Some(v as int),
            None => pri_value(s@) is None,
        },
{
    let start: usize = if s.len() > 0 && s[0] == PLUS { 1 } else { 0 };
    let ghost digits = s@.subrange(start as int, s@.len() as int);
    assert(digits =~= (if s@.len() > 0 && s@[0] == PLUS { s@.drop_first() } else { s@ }));
    if start >= s.len() {
        return None;
    }
    // The value read so far, held at 256 once it is out of range.
    let mut acc: u32 = 0;
    let mut i: usize = start;
    while i < s.len()
        invariant
            start <= i <= s@.len(),
            digits == s@.subrange(start as int, s@.len() as int),
            digits == (if s@.len() > 0 && s@[0] == PLUS { s@.drop_first() } else { s@ }),
            all_digits(s@.subrange(start as int, i as int)),
            acc as int == if digits_value(s@.subrange(start as int, i as int)) > 255 {
                256
            } else {
                digits_value(s@.subrange(start as int, i as int))
            },
        decreases s.len() - i,
    {
        let c = s[i];
        let ghost prev = s@.subrange(start as int, i as int);
        let ghost next = s@.subrange(start as int, i + 1);
        assert(next.drop_last() =~= prev);
        if c < DIGIT_ZERO || c > DIGIT_NINE {
            assert(digits[i - start] == c);
            assert(!all_digits(digits));
            return None;
        }
        proof {
            lemma_digits_value_nonneg(prev);
            assert(all_digits(next));
            assert(digits_value(next) == digits_value(prev) * 10 + (c - 48));
        }
        let d: u32 = (c - DIGIT_ZERO) as u32;
        let ghost v = digits_value(prev);
        assert(v > 255 ==> v * 10 + d > 255) by (nonlinear_arith);
        if acc * 10 + d > 255 {
            acc = 256;
        } else {
            acc = acc * 10 + d;
        }
        i = i + 1;
    }
    assert(s@.subrange(start as int, i as int) =~= digits);
    if acc > 255 {
        None
    } else {
        Some(acc as u8)
    }
}

/// Length of the bracketed block that starts `b`: one past the `]` that
/// brings the nesting depth back to zero, or `None` if it never does.
pub fn find_sd_end(b: &[u8]) -> (r: Option<usize>)
    ensures
        match r {
            Some(e) => sd_length(b@) == Some(e as int),
            None => sd_length(b@) is None,
        },
{
    let mut depth: i128 = 0;
    let mut i: usize = 0;
    while i < b.len()
        invariant
            i <= b@.len(),
            -(i as int) <= depth <= i as int,
            sd_length(b@) == sd_scan(b@, i as int, depth as int),
        decreases b.len() - i,
    {
        if b[i] == OPEN_BRACKET {
            depth = depth + 1;
        } else if b[i] == CLOSE_BRACKET {
            depth = depth - 1;
            if depth == 0 {
                return Some(i + 1);
            }
        }
        i = i + 1;
    }
    None
}

/// Cursor after skipping up to `n` space-terminated fields from `c`.
fn skip_fields_from(b: &[u8], c: usize, n: usize) -> (r: usize)
    requires
        c <= b@.len(),
    ensures
        r as int == skip_fields(b@, c as int, n as nat),
        r <= b@.len(),
{
    let mut cursor: usize = c;
    let mut left: usize = n;
    while left > 0
        invariant
            cursor <= b@.len(),
            skip_fields(b@, c as int, n as nat) == skip_fields(b@, cursor as int, left as nat),
        decreases left,
    {
        match find_byte(b, cursor, SPACE) {
            Some(sp) => {
                cursor = sp + 1;
                left = left - 1;
            },
            None => {
                return cursor;
            },
        }
    }
    cursor
}

proof fn lemma_sd_scan_bounds(s: Seq<u8>, i: int, depth: int)
    ensures
        match sd_scan(s, i, depth) {
            Some(e) => i < e <= s.len(),
            None => true,
        },
    decreases s.len() - i,
{
    if 0 <= i < s.len() {
        lemma_sd_scan_bounds(s, i + 1, depth + 1);
        lemma_sd_scan_bounds(s, i + 1, depth - 1);
        lemma_sd_scan_bounds(s, i + 1, depth);
    }
}

/// Read the framing of a syslog message: its severity, whether it is RFC
/// 5424, where its declared charset label lies and where its body begins.
pub fn parse_framing(b: &[u8]) -> (r: Framing)
    ensures
        r.describes(b@),
        r.body_start <= b@.len(),
        match r.label {
            Some(l) => l.0 <= l.1 <= b@.len(),
            None => true,
        },
{
    let mut severity = Severity::Informational;
    let mut cursor: usize = 0;
    if b.len() > 0 && b[0] == LT {
        if let Some(pos) = find_byte(b, 0, GT) {
            if let Some(v) = parse_pri(&b[1..pos]) {
                severity = Severity::from_pri(v);
            }
            cursor = pos + 1;
        }
    }
    let mut version: Option<usize> = None;
    if cursor < b.len() && DIGIT_ZERO <= b[cursor] && b[cursor] <= DIGIT_NINE {
        version = find_byte(b, cursor, SPACE);
    }
    let sp = match version {
        None => {
            return Framing { severity, rfc5424: false, label: None, body_start: cursor };
        },
        Some(sp) => sp,
    };
    cursor = skip_fields_from(b, sp + 1, 5);
    let mut label: Option<(usize, usize)> = None;
    if cursor < b.len() && b[cursor] == OPEN_BRACKET {
        let rest = &b[cursor..b.len()];
        assert(rest@ =~= b@.subrange(cursor as int, b@.len() as int));
        if let Some(e) = find_sd_end(rest) {
            proof {
                lemma_sd_scan_bounds(rest@, 0, 0);
            }
            let sd = &b[cursor..cursor + e];
            label = match sd_label(sd) {
                Some((ls, le)) => Some((cursor + ls, cursor + le)),
                None => None,
            };
            cursor = cursor + e;
        }
    } else if b.len() - cursor >= 2 && b[cursor] == DASH && b[cursor + 1] == SPACE {
        cursor = cursor + 2;
    }
    if cursor < b.len() && b[cursor] == SPACE {
        cursor = cursor + 1;
    }
    Framing { severity, rfc5424: true, label, body_start: cursor }
}

/// Where the `charset="..."` label lies in a structured-data block.
fn sd_label(sd: &[u8]) -> (r: Option<(usize, usize)>)
    ensures
        match r {
            Some(l) => label_in_sd(sd@) == Some((l.0 as int, l.1 as int)) && l.0 <= l.1 <= sd@.len(),
            None => label_in_sd(sd@) is None,
        },
{
    if !crate::text::utf8_text(sd).is_some() {
        return None;
    }
    let key: [u8; 9] = [99, 104, 97, 114, 115, 101, 116, 61, QUOTE];
    assert(key@ =~= charset_key());
    match find_bytes(sd, key.as_slice()) {
        Some(k) => {
            match find_byte(sd, k + 9, QUOTE) {
                Some(q) => Some((k + 9, q)),
                None => None,
            }
        },
        None => None,
    }
}

/// Without a PRI that reads as a number, a message is Informational.
pub proof fn lemma_default_severity(b: Seq<u8>)
    requires
        match pri_close(b) {
            Some(p) => pri_value(b.subrange(1, p)) is None,
            None => true,
        },
    ensures
        message_severity(b) == Severity::Informational,
{
}

} // verus!
