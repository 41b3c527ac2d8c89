use crate::parser::SyslogMessage;
use vstd::prelude::*;

verus! {

/// Largest number of messages the viewer keeps.
pub const MAX_KEPT: usize = 5000;

/// What `str::to_lowercase` makes of a text.
pub uninterp spec fn lower_of(s: Seq<char>) -> Seq<char>;

/// Whether `needle` occurs in `hay` as a contiguous run.
pub open spec fn occurs_in(hay: Seq<char>, needle: Seq<char>) -> bool {
    exists|i: int| 0 <= i && i + needle.len() <= hay.len() && #[trigger] hay.subrange(i, i + needle.len()) == needle
}

/// A lower-cased filter accepts a message when it is empty or occurs in the
/// lower-cased content or tag.
pub open spec fn filter_accepts(
    filter: Seq<char>,
    content: Seq<char>,
    tag: Option<Seq<char>>,
) -> bool {
    filter.len() == 0 || occurs_in(content, filter) || match tag {
        Some(t) => occurs_in(t, filter),
        None => false,
    }
}

/// Relies on `str::to_lowercase` (Unicode case mapping).
#[verifier::external_body]
fn to_lower(s: &str) -> (r: String)
    ensures
        r@ == lower_of(s@),
{
    s.to_lowercase()
}

/// Relies on `str::contains` with a `&str` pattern: a substring search.
#[verifier::external_body]
fn contains_text(hay: &str, needle: &str) -> (r: bool)
    ensures
        r == occurs_in(hay@, needle@),
{
    hay.contains(needle)
}

/// Whether a lower-cased filter accepts lower-cased content and tag.
pub fn matches_filter(filter: &str, content: &str, tag: Option<&str>) -> (r: bool)
    ensures
        r == filter_accepts(
            filter@,
            content@,
            match tag {
                Some(t) => Some(t@),
                None => None,
            },
        ),
{
    if filter.is_empty() || contains_text(content, filter) {
        return true;
    }
    match tag {
        Some(t) => contains_text(t, filter),
        None => false,
    }
}

/// Whether the viewer shows a message under a filter, ignoring case.
pub fn entry_matches(filter: &str, msg: &SyslogMessage) -> (r: bool)
    ensures
        r == filter_accepts(
            lower_of(filter@),
            lower_of(msg.content@),
            match msg.tag {
                Some(t) => Some(lower_of(t@)),
                None => None,
            },
        ),
{
    let f = to_lower(filter);
    let c = to_lower(msg.content.as_str());
    match &msg.tag {
        Some(t) => {
            let lt = to_lower(t.as_str());
            matches_filter(f.as_str(), c.as_str(), Some(lt.as_str()))
        },
        None => matches_filter(f.as_str(), c.as_str(), None),
    }
}

/// Append a message, dropping the oldest once more than `MAX_KEPT` are held.
pub fn push_capped(logs: &mut Vec<SyslogMessage>, msg: SyslogMessage)
    ensures
        final(logs)@ == if old(logs)@.len() + 1 > MAX_KEPT {
            old(logs)@.push(msg).drop_first()
        } else {
            old(logs)@.push(msg)
        },
{
    logs.push(msg);
    if logs.len() > MAX_KEPT {
        logs.remove(0);
        assert(logs@ =~= old(logs)@.push(msg).drop_first());
    }
}

} // verus!
