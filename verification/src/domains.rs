//! The text side of a run: raw input lines become domains, and a batch of
//! matched domains becomes the text that is written out.

use vstd::prelude::*;
use vstd::string::*;
use crate::text::texts;

verus! {

/// Whether a character counts as whitespace when a line is trimmed: whether
/// it has the Unicode property White_Space.
pub uninterp spec fn white_space(c: char) -> bool;

/// A text without its leading whitespace.
pub open spec fn strip_front(s: Seq<char>) -> Seq<char>
    decreases s.len(),
{
    if s.len() > 0 && white_space(s[0]) {
        strip_front(s.skip(1))
    } else {
        s
    }
}

/// A text without its trailing whitespace.
pub open spec fn strip_back(s: Seq<char>) -> Seq<char>
    decreases s.len(),
{
    if s.len() > 0 && white_space(s.last()) {
        strip_back(s.drop_last())
    } else {
        s
    }
}

/// A text without the whitespace at either end.
pub open spec fn trim_spec(s: Seq<char>) -> Seq<char> {
    strip_back(strip_front(s))
}

/// The domains that a series of raw lines holds: each line trimmed, blank
/// lines left out, the order kept.
pub open spec fn domains_of(lines: Seq<Seq<char>>) -> Seq<Seq<char>>
    decreases lines.len(),
{
    if lines.len() == 0 {
        Seq::empty()
    } else {
        let rest = domains_of(lines.drop_last());
        let domain = trim_spec(lines.last());
        if domain.len() > 0 {
            rest.push(domain)
        } else {
            rest
        }
    }
}

/// The text of a batch: every domain followed by a line feed.
pub open spec fn rendered(domains: Seq<Seq<char>>) -> Seq<char>
    decreases domains.len(),
{
    if domains.len() == 0 {
        Seq::empty()
    } else {
        rendered(domains.drop_last()) + domains.last() + seq!['\n']
    }
}

/// Calls `str::trim`, which returns the slice that is left when the leading
/// and the trailing whitespace are removed, whitespace being the characters
/// with the Unicode property White_Space. The contract says so, with that
/// property as an uninterpreted predicate.
#[verifier::external_body]
fn trim(line: &str) -> (trimmed: &str)
    ensures
        trimmed@ == trim_spec(line@),
        trimmed@.len() > 0 ==> !white_space(trimmed@[0]) && !white_space(trimmed@.last()),
{
    line.trim()
}

/// Turns one raw line into a domain: the line without surrounding
/// whitespace, or nothing when only whitespace is there.
pub fn clean_line(line: &String) -> (domain: Option<String>)
    ensures
        match domain {
            Some(d) => d@ == trim_spec(line@) && d@.len() > 0,
            None => trim_spec(line@).len() == 0,
        },
{
    let trimmed = trim(line.as_str());
    if trimmed.is_empty() {
        None
    } else {
        Some(trimmed.to_owned())
    }
}

/// Reads the domains out of raw input lines, skipping the blank ones.
pub fn collect_domains(lines: &Vec<String>) -> (domains: Vec<String>)
    ensures
        texts(domains@) == domains_of(texts(lines@)),
{
    let mut domains: Vec<String> = Vec::new();
    let mut i: usize = 0;
    assert(texts(lines@).take(0) =~= Seq::<Seq<char>>::empty());
    assert(texts(domains@) =~= Seq::<Seq<char>>::empty());
    while i < lines.len()
        invariant
            i <= lines.len(),
            texts(domains@) == domains_of(texts(lines@).take(i as int)),
        decreases lines.len() - i,
    {
        let ghost before = texts(domains@);
        let ghost seen = texts(lines@).take(i as int + 1);
        assert(seen.drop_last() =~= texts(lines@).take(i as int));
        assert(seen.last() == lines@[i as int]@);
        match clean_line(&lines[i]) {
            Some(domain) => {
                domains.push(domain);
                assert(texts(domains@) =~= before.push(trim_spec(lines@[i as int]@)));
            },
            None => {},
        }
        i += 1;
    }
    assert(texts(lines@).take(lines.len() as int) =~= texts(lines@));
    domains
}

/// Writes a batch out as text, one domain to a line, each line ended by a
/// line feed.
pub fn render(domains: &Vec<String>) -> (out: String)
    ensures
        out@ == rendered(texts(domains@)),
{
    let mut out = String::new();
    let mut i: usize = 0;
    assert(texts(domains@).take(0) =~= Seq::<Seq<char>>::empty());
    while i < domains.len()
        invariant
            i <= domains.len(),
            out@ == rendered(texts(domains@).take(i as int)),
        decreases domains.len() - i,
    {
        let ghost seen = texts(domains@).take(i as int + 1);
        assert(seen.drop_last() =~= texts(domains@).take(i as int));
        assert(seen.last() == domains@[i as int]@);
        out.append(domains[i].as_str());
        out.append("\n");
        proof {
            reveal_strlit("\n");
            assert("\n"@ =~= seq!['\n']);
        }
        i += 1;
    }
    assert(texts(domains@).take(domains.len() as int) =~= texts(domains@));
    out
}

} // verus!
