//! Parsing of intake lines `"<id> <locator> <destination>"`.
use vstd::prelude::*;
use crate::job::{Job, RETRY_BUDGET};
use crate::text::chars_of;
use vstd::string::*;

verus! {

/// What `str::trim` returns for a string with these characters.
pub uninterp spec fn trim_of(s: Seq<char>) -> Seq<char>;

/// Relies on `str::trim`: strips leading and trailing whitespace; the result
/// depends on the characters alone.
#[verifier::external_body]
fn trim_line(s: &str) -> (r: &str)
    ensures
        r@ == trim_of(s@),
{
    s.trim()
}

/// `i` is the position of the first space in `s`.
pub open spec fn is_first_space(s: Seq<char>, i: int) -> bool {
    0 <= i < s.len() && s[i] == ' ' && forall|j: int| 0 <= j < i ==> s[j] != ' '
}

/// `s` holds a space.
pub open spec fn has_space(s: Seq<char>) -> bool {
    exists|i: int| 0 <= i < s.len() && s[i] == ' '
}

/// Position of the first space of `s` (meaningful when `has_space(s)`).
pub open spec fn first_space(s: Seq<char>) -> int {
    choose|i: int| is_first_space(s, i)
}

/// The fields of a (trimmed) intake line: the id up to the first space, the
/// locator up to the next space, and the rest of the line verbatim as the
/// destination. A line without two spaces, or with an empty id or locator,
/// has none.
pub open spec fn line_fields(line: Seq<char>) -> Option<(Seq<char>, Seq<char>, Seq<char>)> {
    if !has_space(line) {
        None
    } else {
        let i = first_space(line);
        let rest = line.subrange(i + 1, line.len() as int);
        if !has_space(rest) {
            None
        } else {
            let k = first_space(rest);
            let id = line.subrange(0, i);
            let locator = rest.subrange(0, k);
            let destination = rest.subrange(k + 1, rest.len() as int);
            if id.len() == 0 || locator.len() == 0 {
                None
            } else {
                Some((id, locator, destination))
            }
        }
    }
}

/// The job that a line with these fields describes.
pub open spec fn job_matches(j: Job, fields: (Seq<char>, Seq<char>, Seq<char>)) -> bool {
    &&& j.id@ == fields.0
    &&& j.locator@ == fields.1
    &&& j.destination@ == fields.2
    &&& j.retries_remaining == RETRY_BUDGET
}

/// The parse result agrees with `line_fields(line)`.
pub open spec fn parsed_as(r: Option<Job>, line: Seq<char>) -> bool {
    match line_fields(line) {
        None => r is None,
        Some(f) => r is Some && job_matches(r->0, f),
    }
}

/// Finds the first space of `s[from..]`, as an absolute position.
fn find_space(s: &Vec<char>, from: usize) -> (r: Option<usize>)
    requires
        from <= s.len(),
    ensures
        match r {
            None => !has_space(s@.subrange(from as int, s.len() as int)),
            Some(p) => from <= p < s.len() && is_first_space(
                s@.subrange(from as int, s.len() as int),
                p - from,
            ),
        },
{
    let mut p: usize = from;
    while p < s.len()
        invariant
            from <= p <= s.len(),
            forall|j: int| from <= j < p ==> s@[j] != ' ',
        decreases s.len() - p,
    {
        if s[p] == ' ' {
            return Some(p);
        }
        p = p + 1;
    }
    let ghost t = s@.subrange(from as int, s.len() as int);
    assert(!has_space(t)) by {
        assert forall|j: int| 0 <= j < t.len() implies t[j] != ' ' by {
            assert(t[j] == s@[from + j]);
        }
    }
    None
}

/// Parses a line that has already been trimmed of surrounding whitespace.
pub fn parse_trimmed_line(line: &str) -> (r: Option<Job>)
    ensures
        parsed_as(r, line@),
{
    let cs = chars_of(line);
    let ghost s = cs@;
    assert(s.subrange(0, s.len() as int) == s);
    match find_space(&cs, 0) {
        None => None,
        Some(i) => {
            proof {
                assert(first_space(s) == i as int);
            }
            let ghost rest = s.subrange(i + 1, s.len() as int);
            match find_space(&cs, i + 1) {
                None => None,
                Some(k) => {
                    proof {
                        assert(is_first_space(rest, k - (i + 1)));
                        assert(first_space(rest) == k - (i + 1));
                        assert(rest.subrange(0, k - (i + 1)) == s.subrange(i + 1, k as int));
                        assert(rest.subrange(k - (i + 1) + 1, rest.len() as int) == s.subrange(k + 1, s.len() as int));
                    }
                    if i == 0 || k == i + 1 {
                        None
                    } else {
                        let id = String::from_str(line.substring_char(0, i));
                        let locator = String::from_str(line.substring_char(i + 1, k));
                        let destination = String::from_str(line.substring_char(k + 1, cs.len()));
                        Some(Job::new(id, locator, destination))
                    }
                }
            }
        }
    }
}

/// Parses a raw intake line: surrounding whitespace is trimmed first. Blank
/// and malformed lines give `None`.
pub fn parse_request_line(raw: &str) -> (r: Option<Job>)
    ensures
        parsed_as(r, trim_of(raw@)),
{
    let line = trim_line(raw);
    parse_trimmed_line(line)
}

} // verus!
