//! What the download tool's output lines say of a download's progress: the
//! percentage or segment count, the speed and the number of threads. The
//! lines are searched with regular expressions of the `regex` crate.
use vstd::prelude::*;
use crate::text::{char_vec, opt_view, string_from_chars, trim_seq, trimmed_owned};

verus! {

/// The groups of the first match of `pattern` in `haystack`, group 0 being
/// the whole match and an absent group one that did not take part; none when
/// nothing matches (or the pattern is not a valid expression).
pub uninterp spec fn regex_captures(pattern: Seq<char>, case_insensitive: bool, haystack: Seq<char>) -> Option<Seq<Option<Seq<char>>>>;

/// The characters of each group of a search result.
pub open spec fn groups_view(groups: Seq<Option<String>>) -> Seq<Option<Seq<char>>> {
    groups.map_values(|g: Option<String>| opt_view(g))
}

/// The characters of a search result.
pub open spec fn captures_view(c: Option<Vec<Option<String>>>) -> Option<Seq<Option<Seq<char>>>> {
    match c {
        Some(groups) => Some(groups_view(groups@)),
        None => None,
    }
}

/// `regex::RegexBuilder::new(pattern).case_insensitive(..).build()` followed by
/// `Regex::captures(haystack)`: the groups of the first match, each as an owned
/// string when it took part. The contract only names the result; an invalid
/// pattern gives none, where the crate would report a build error.
#[verifier::external_body]
fn first_captures(pattern: &str, case_insensitive: bool, haystack: &str) -> (r: Option<Vec<Option<String>>>)
    ensures
        captures_view(r) == regex_captures(pattern@, case_insensitive, haystack@),
{
    let re = regex::RegexBuilder::new(pattern).case_insensitive(case_insensitive).build().ok()?;
    let caps = re.captures(haystack)?;
    Some(caps.iter().map(|m| m.map(|m| m.as_str().to_string())).collect())
}

/// A percentage, with `.` or `,` as decimal separator.
pub open spec fn percent_pattern() -> Seq<char> {
    "([0-9]+(?:[\\.,][0-9]+)?)%"@
}

/// A segment count such as `Progress: 3/10`.
pub open spec fn count_pattern() -> Seq<char> {
    "Progress:\\s*(\\d+)\\s*/\\s*(\\d+)"@
}

/// A speed such as `1.5 MB/s`; searched without regard to case.
pub open spec fn speed_pattern() -> Seq<char> {
    "([0-9]+(?:[\\.,][0-9]+)?\\s*(?:[KMGT]i?B|KB|MB|GB|TB|B)/(?:s|秒))"@
}

/// A thread count such as `Threads: 16` or `16 threads`; searched without
/// regard to case.
pub open spec fn threads_pattern() -> Seq<char> {
    "(?:threads?|线程(?:数)?)[\\s:=：]*(\\d+)|([0-9]+)[\\s]*(?:threads?|线程)"@
}

/// Group `i` of a search result, if the search matched and the group took part.
pub open spec fn group(c: Option<Seq<Option<Seq<char>>>>, i: int) -> Option<Seq<char>> {
    match c {
        Some(g) => if 0 <= i < g.len() {
            g[i]
        } else {
            None
        },
        None => None,
    }
}

fn group_at(caps: &Option<Vec<Option<String>>>, i: usize) -> (r: Option<&str>)
    ensures
        match r {
            Some(s) => group(captures_view(*caps), i as int) == Some(s@),
            None => group(captures_view(*caps), i as int) is None,
        },
{
    match caps {
        Some(groups) => {
            if i < groups.len() {
                match &groups[i] {
                    Some(s) => Some(s.as_str()),
                    None => None,
                }
            } else {
                None
            }
        },
        None => None,
    }
}

/// The speed a search result gives: its first group, trimmed.
pub open spec fn speed_of(c: Option<Seq<Option<Seq<char>>>>) -> Option<Seq<char>> {
    match group(c, 1) {
        Some(s) => Some(trim_seq(s)),
        None => None,
    }
}

/// The speed given by the groups `caps` of a speed search.
pub fn speed_from_captures(caps: Option<Vec<Option<String>>>) -> (r: Option<String>)
    ensures
        opt_view(r) == speed_of(captures_view(caps)),
{
    match group_at(&caps, 1) {
        Some(s) => Some(trimmed_owned(s)),
        None => None,
    }
}

/// The speed a line reports, if any.
pub fn parse_speed(line: &str) -> (r: Option<String>)
    ensures
        opt_view(r) == speed_of(regex_captures(speed_pattern(), true, line@)),
{
    let caps = first_captures(
        "([0-9]+(?:[\\.,][0-9]+)?\\s*(?:[KMGT]i?B|KB|MB|GB|TB|B)/(?:s|秒))",
        true,
        line,
    );
    speed_from_captures(caps)
}

/// The thread count a search result gives: its first group, or else its
/// second.
pub open spec fn threads_of(c: Option<Seq<Option<Seq<char>>>>) -> Option<Seq<char>> {
    match group(c, 1) {
        Some(s) => Some(s),
        None => group(c, 2),
    }
}

/// The thread count given by the groups `caps` of a thread search.
pub fn threads_from_captures(caps: Option<Vec<Option<String>>>) -> (r: Option<String>)
    ensures
        opt_view(r) == threads_of(captures_view(caps)),
{
    match group_at(&caps, 1) {
        Some(s) => Some(s.to_string()),
        None => match group_at(&caps, 2) {
            Some(s) => Some(s.to_string()),
            None => None,
        },
    }
}

/// The thread count a line reports, if any.
pub fn parse_threads(line: &str) -> (r: Option<String>)
    ensures
        opt_view(r) == threads_of(regex_captures(threads_pattern(), true, line@)),
{
    let caps = first_captures(
        "(?:threads?|线程(?:数)?)[\\s:=：]*(\\d+)|([0-9]+)[\\s]*(?:threads?|线程)",
        true,
        line,
    );
    threads_from_captures(caps)
}

/// `s` with every `,` made a `.`.
pub open spec fn commas_to_dots(s: Seq<char>) -> Seq<char> {
    s.map_values(|c: char| if c == ',' { '.' } else { c })
}

/// The percentage a search result gives, as a decimal number with `.`.
pub open spec fn percent_of(c: Option<Seq<Option<Seq<char>>>>) -> Option<Seq<char>> {
    match group(c, 1) {
        Some(s) => Some(commas_to_dots(s)),
        None => None,
    }
}

/// The percentage given by the groups `caps` of a percentage search.
pub fn percent_from_captures(caps: Option<Vec<Option<String>>>) -> (r: Option<String>)
    ensures
        opt_view(r) == percent_of(captures_view(caps)),
{
    match group_at(&caps, 1) {
        Some(s) => {
            let chars = char_vec(s);
            let mut out: Vec<char> = Vec::new();
            let mut i: usize = 0;
            while i < chars.len()
                invariant
                    i <= chars@.len(),
                    chars@ == s@,
                    out@ == commas_to_dots(s@.take(i as int)),
                decreases chars@.len() - i,
            {
                let c = chars[i];
                out.push(if c == ',' { '.' } else { c });
                proof {
                    assert(commas_to_dots(s@.take(i + 1)) =~= commas_to_dots(s@.take(i as int)).push(
                        if c == ',' { '.' } else { c },
                    ));
                }
                i = i + 1;
            }
            proof {
                assert(s@.take(s@.len() as int) =~= s@);
            }
            Some(string_from_chars(&out))
        },
        None => None,
    }
}

/// The percentage a line reports, as decimal text with `.`, if any.
pub fn progress_percent_text(line: &str) -> (r: Option<String>)
    ensures
        opt_view(r) == percent_of(regex_captures(percent_pattern(), false, line@)),
{
    let caps = first_captures("([0-9]+(?:[\\.,][0-9]+)?)%", false, line);
    percent_from_captures(caps)
}

/// The segments done and in all that a search result gives, when both took
/// part.
pub open spec fn count_of(c: Option<Seq<Option<Seq<char>>>>) -> Option<(Seq<char>, Seq<char>)> {
    match (group(c, 1), group(c, 2)) {
        (Some(done), Some(all)) => Some((done, all)),
        _ => None,
    }
}

/// The segment counts given by the groups `caps` of a count search.
pub fn count_from_captures(caps: Option<Vec<Option<String>>>) -> (r: Option<(String, String)>)
    ensures
        match r {
            Some((done, all)) => count_of(captures_view(caps)) == Some((done@, all@)),
            None => count_of(captures_view(caps)) is None,
        },
{
    match (group_at(&caps, 1), group_at(&caps, 2)) {
        (Some(done), Some(all)) => Some((done.to_string(), all.to_string())),
        _ => None,
    }
}

/// The segments done and in all that a line reports, if any.
pub fn progress_count_text(line: &str) -> (r: Option<(String, String)>)
    ensures
        match r {
            Some((done, all)) => count_of(regex_captures(count_pattern(), false, line@)) == Some(
                (done@, all@),
            ),
            None => count_of(regex_captures(count_pattern(), false, line@)) is None,
        },
{
    let caps = first_captures("Progress:\\s*(\\d+)\\s*/\\s*(\\d+)", false, line);
    count_from_captures(caps)
}

} // verus!
