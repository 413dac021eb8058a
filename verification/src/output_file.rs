//! Which file a finished download produced: a file named after the task's
//! save name, else the newest video file whose name starts with it, else the
//! newest video file written within the last minute.
use vstd::prelude::*;
use crate::run_session::instant_nanos;
use crate::task::Timestamp;
use crate::text::{char_vec, concat, opt_view};

verus! {

broadcast use vstd::string::group_string_axioms;

/// The extensions of the video files the download tool writes, in the order
/// they are looked for.
pub open spec fn video_extensions() -> Seq<Seq<char>> {
    seq!["mp4"@, "mkv"@, "ts"@, "flv"@, "mpg"@, "mpeg"@]
}

fn video_extension(i: usize) -> (r: &'static str)
    requires
        i < 6,
    ensures
        r@ == video_extensions()[i as int],
{
    if i == 0 {
        "mp4"
    } else if i == 1 {
        "mkv"
    } else if i == 2 {
        "ts"
    } else if i == 3 {
        "flv"
    } else if i == 4 {
        "mpg"
    } else {
        "mpeg"
    }
}

/// The file name `name.ext`.
pub open spec fn with_extension(name: Seq<char>, ext: Seq<char>) -> Seq<char> {
    name + "."@ + ext
}

/// The names a file saved as `name` is first looked for under, one per video
/// extension, in order.
pub fn exact_output_names(name: &str) -> (r: Vec<String>)
    ensures
        r@.len() == 6,
        forall|i: int| 0 <= i < 6 ==> #[trigger] r@[i]@ == with_extension(name@, video_extensions()[i]),
{
    let stem = concat(name, ".");
    let mut out: Vec<String> = Vec::new();
    let mut i: usize = 0;
    while i < 6
        invariant
            i <= 6,
            stem@ == name@ + "."@,
            out@.len() == i,
            forall|j: int| 0 <= j < i ==> #[trigger] out@[j]@ == with_extension(name@, video_extensions()[j]),
        decreases 6 - i,
    {
        out.push(concat(stem.as_str(), video_extension(i)));
        i = i + 1;
    }
    out
}

/// Whether `name` ends with `.` and a video extension.
pub open spec fn has_video_extension(name: Seq<char>) -> bool {
    exists|i: int|
        0 <= i < 6 && {
            let suffix = "."@ + #[trigger] video_extensions()[i];
            name.len() >= suffix.len() && name.subrange(name.len() - suffix.len(), name.len() as int)
                == suffix
        }
}

fn ends_with(chars: &Vec<char>, suffix: &str) -> (r: bool)
    ensures
        r == (chars@.len() >= suffix@.len() && chars@.subrange(
            chars@.len() - suffix@.len(),
            chars@.len() as int,
        ) == suffix@),
{
    let s = char_vec(suffix);
    if s.len() > chars.len() {
        return false;
    }
    let offset = chars.len() - s.len();
    let mut i: usize = 0;
    while i < s.len()
        invariant
            i <= s@.len(),
            s@ == suffix@,
            offset == chars@.len() - s@.len(),
            offset + s@.len() == chars@.len(),
            chars@.len() == chars.len(),
            forall|j: int| 0 <= j < i ==> chars@[offset + j] == s@[j],
        decreases s@.len() - i,
    {
        if chars[offset + i] != s[i] {
            proof {
                let sub = chars@.subrange(offset as int, chars@.len() as int);
                assert(sub[i as int] == chars@[offset + i]);
            }
            return false;
        }
        i = i + 1;
    }
    proof {
        assert(chars@.subrange(offset as int, chars@.len() as int) =~= suffix@);
    }
    true
}

/// Whether the file name `name` has a video extension.
pub fn is_video_file(name: &str) -> (r: bool)
    ensures
        r == has_video_extension(name@),
{
    let chars = char_vec(name);
    let mut i: usize = 0;
    while i < 6
        invariant
            i <= 6,
            chars@ == name@,
            forall|j: int|
                0 <= j < i ==> !({
                    let suffix = "."@ + #[trigger] video_extensions()[j];
                    name@.len() >= suffix.len() && name@.subrange(
                        name@.len() - suffix.len(),
                        name@.len() as int,
                    ) == suffix
                }),
        decreases 6 - i,
    {
        let suffix = concat(".", video_extension(i));
        if ends_with(&chars, suffix.as_str()) {
            return true;
        }
        i = i + 1;
    }
    false
}

/// Whether `name` starts with `prefix`.
pub open spec fn starts_with(name: Seq<char>, prefix: Seq<char>) -> bool {
    name.len() >= prefix.len() && name.subrange(0, prefix.len() as int) == prefix
}

fn has_prefix(name: &str, prefix: &str) -> (r: bool)
    ensures
        r == starts_with(name@, prefix@),
{
    let a = char_vec(name);
    let b = char_vec(prefix);
    if b.len() > a.len() {
        return false;
    }
    let mut i: usize = 0;
    while i < b.len()
        invariant
            i <= b@.len(),
            b@.len() <= a@.len(),
            a@ == name@,
            b@ == prefix@,
            forall|j: int| 0 <= j < i ==> a@[j] == b@[j],
        decreases b@.len() - i,
    {
        if a[i] != b[i] {
            proof {
                assert(name@.subrange(0, prefix@.len() as int)[i as int] == a@[i as int]);
            }
            return false;
        }
        i = i + 1;
    }
    proof {
        assert(name@.subrange(0, prefix@.len() as int) =~= prefix@);
    }
    true
}

/// A file of the download directory as listed: its name, its path when that
/// is valid text, and its modification time when it could be read.
#[derive(Debug, Clone)]
pub struct OutputEntry {
    pub name: String,
    pub path: Option<String>,
    pub modified: Option<Timestamp>,
}

/// Whether modification time `a` is later than `b`; a time that could not be
/// read is earlier than any other.
pub open spec fn time_after(a: Option<Timestamp>, b: Option<Timestamp>) -> bool {
    match (a, b) {
        (Some(x), Some(y)) => x.secs > y.secs || (x.secs == y.secs && x.nanos > y.nanos),
        (Some(_), None) => true,
        _ => false,
    }
}

fn is_after(a: Option<Timestamp>, b: Option<Timestamp>) -> (r: bool)
    ensures
        r == time_after(a, b),
{
    match (a, b) {
        (Some(x), Some(y)) => x.secs > y.secs || (x.secs == y.secs && x.nanos > y.nanos),
        (Some(_), None) => true,
        _ => false,
    }
}

/// How a file is chosen among the listed ones.
#[derive(Debug, Clone, Copy, PartialEq, Eq, Structural)]
pub enum EntryFilter {
    /// A video file whose name starts with the save name.
    NamedAfter,
    /// A video file modified less than a minute before the given time.
    RecentAt(Timestamp),
}

/// Whether the listed file `e` passes filter `f` for save name `name`.
pub open spec fn passes(e: OutputEntry, f: EntryFilter, name: Seq<char>) -> bool {
    &&& has_video_extension(e.name@)
    &&& match f {
        EntryFilter::NamedAfter => starts_with(e.name@, name),
        EntryFilter::RecentAt(now) => match e.modified {
            Some(m) => instant_nanos(now) - instant_nanos(m) < 60_000_000_000,
            None => false,
        },
    }
}

/// `i` is the first of the files passing the filter with the latest
/// modification time.
pub open spec fn first_newest(entries: Seq<OutputEntry>, f: EntryFilter, name: Seq<char>, i: int) -> bool {
    &&& 0 <= i < entries.len()
    &&& passes(entries[i], f, name)
    &&& forall|j: int|
        0 <= j < entries.len() && passes(#[trigger] entries[j], f, name) ==> !time_after(
            entries[j].modified,
            entries[i].modified,
        ) && (j < i ==> time_after(entries[i].modified, entries[j].modified))
}

fn passes_filter(e: &OutputEntry, f: EntryFilter, name: &str) -> (r: bool)
    ensures
        r == passes(*e, f, name@),
{
    if !is_video_file(e.name.as_str()) {
        return false;
    }
    match f {
        EntryFilter::NamedAfter => has_prefix(e.name.as_str(), name),
        EntryFilter::RecentAt(now) => match e.modified {
            Some(m) => {
                let now_ns: i128 = (now.secs as i128) * 1_000_000_000 + (now.nanos as i128);
                let m_ns: i128 = (m.secs as i128) * 1_000_000_000 + (m.nanos as i128);
                now_ns - m_ns < 60_000_000_000
            },
            None => false,
        },
    }
}

/// Only one position is the first of the newest.
pub proof fn lemma_first_newest_unique(entries: Seq<OutputEntry>, f: EntryFilter, name: Seq<char>, i: int, k: int)
    requires
        first_newest(entries, f, name, i),
        first_newest(entries, f, name, k),
    ensures
        i == k,
{
    if i < k {
        assert(passes(entries[i], f, name));
        assert(passes(entries[k], f, name));
    }
    if k < i {
        assert(passes(entries[i], f, name));
        assert(passes(entries[k], f, name));
    }
}

/// The path of the first of the newest files passing the filter; none when
/// no file passes.
pub open spec fn newest_path(entries: Seq<OutputEntry>, f: EntryFilter, name: Seq<char>) -> Option<Option<String>> {
    if exists|i: int| first_newest(entries, f, name, i) {
        Some(entries[choose|i: int| first_newest(entries, f, name, i)].path)
    } else {
        None
    }
}

/// The position of the first of the newest files passing the filter, if any
/// passes.
pub fn newest_entry(entries: &Vec<OutputEntry>, f: EntryFilter, name: &str) -> (r: Option<usize>)
    ensures
        match r {
            Some(i) => first_newest(entries@, f, name@, i as int),
            None => forall|j: int| 0 <= j < entries@.len() ==> !passes(#[trigger] entries@[j], f, name@),
        },
        match r {
            Some(i) => newest_path(entries@, f, name@) == Some(entries@[i as int].path),
            None => newest_path(entries@, f, name@) is None,
        },
{
    let mut best: Option<usize> = None;
    let mut i: usize = 0;
    while i < entries.len()
        invariant
            i <= entries@.len(),
            match best {
                Some(b) => b < i && passes(entries@[b as int], f, name@) && forall|j: int|
                    0 <= j < i && passes(#[trigger] entries@[j], f, name@) ==> !time_after(
                        entries@[j].modified,
                        entries@[b as int].modified,
                    ) && (j < b ==> time_after(entries@[b as int].modified, entries@[j].modified)),
                None => forall|j: int| 0 <= j < i ==> !passes(#[trigger] entries@[j], f, name@),
            },
        decreases entries@.len() - i,
    {
        if passes_filter(&entries[i], f, name) {
            match best {
                None => {
                    best = Some(i);
                },
                Some(b) => {
                    if is_after(entries[i].modified, entries[b].modified) {
                        best = Some(i);
                    }
                },
            }
        }
        i = i + 1;
    }
    proof {
        match best {
            Some(b) => {
                let k = choose|k: int| first_newest(entries@, f, name@, k);
                lemma_first_newest_unique(entries@, f, name@, b as int, k);
            },
            None => {
                if exists|k: int| first_newest(entries@, f, name@, k) {
                    let k = choose|k: int| first_newest(entries@, f, name@, k);
                    assert(passes(entries@[k], f, name@));
                }
            },
        }
    }
    best
}

/// What looking for a file named after the save name found: `None` when no
/// such file exists, else its path when that is valid text.
pub type ExactProbe = Option<Option<String>>;

/// The first probe, from position `k` on among the first six, that found a
/// file.
pub open spec fn first_found_from(exact: Seq<ExactProbe>, k: int) -> ExactProbe
    decreases 6 - k,
{
    if k < 0 || k >= 6 || k >= exact.len() {
        None
    } else if exact[k] is Some {
        exact[k]
    } else {
        first_found_from(exact, k + 1)
    }
}

/// The path [`select_output_file`] chooses.
pub open spec fn chosen_output(
    save_name: Option<Seq<char>>,
    exact: Seq<ExactProbe>,
    listing: Option<Seq<OutputEntry>>,
    now: Timestamp,
) -> Option<String> {
    let named = match save_name {
        Some(n) => n.len() > 0,
        None => false,
    };
    let name = match save_name {
        Some(n) => n,
        None => Seq::<char>::empty(),
    };
    let exact_hit = if named {
        first_found_from(exact, 0)
    } else {
        None
    };
    match exact_hit {
        Some(p) => p,
        None => match listing {
            None => None,
            Some(entries) => {
                let by_name = if named {
                    newest_path(entries, EntryFilter::NamedAfter, name)
                } else {
                    None
                };
                match by_name {
                    Some(p) => p,
                    None => match newest_path(entries, EntryFilter::RecentAt(now), name) {
                        Some(p) => p,
                        None => None,
                    },
                }
            },
        },
    }
}

/// Whether `r` is the path of the first of the newest listed files passing
/// filter `f`, none when that file's path is not valid text; none when no
/// file passes.
pub open spec fn newest_found(entries: Seq<OutputEntry>, f: EntryFilter, name: Seq<char>, r: Option<String>) -> bool {
    &&& (forall|i: int| first_newest(entries, f, name, i) ==> r == entries[i].path)
    &&& (forall|j: int| 0 <= j < entries.len() ==> !passes(#[trigger] entries[j], f, name)) ==> r is None
}

/// Whether `r` is the file a finished download produced, as the rules go:
/// with a save name, the first `name.ext` that exists; failing that, the
/// newest listed video named after the save name; failing that, whether or
/// not there is a save name, the newest video modified within a minute of
/// `now`; none when the directory could not be listed.
pub open spec fn found_output(
    save_name: Option<Seq<char>>,
    exact: Seq<ExactProbe>,
    listing: Option<Seq<OutputEntry>>,
    now: Timestamp,
    r: Option<String>,
) -> bool {
    let named = save_name matches Some(n) && n.len() > 0;
    let name = match save_name {
        Some(n) => n,
        None => Seq::<char>::empty(),
    };
    let no_exact = !named || forall|k: int| 0 <= k < 6 && k < exact.len() ==> #[trigger] exact[k] is None;
    &&& named ==> forall|k: int|
        0 <= k < 6 && k < exact.len() && #[trigger] exact[k] is Some && (forall|j: int|
            0 <= j < k ==> exact[j] is None) ==> r == exact[k]->0
    &&& no_exact && listing is None ==> r is None
    &&& no_exact && named && (listing matches Some(entries) && exists|i: int|
        first_newest(entries, EntryFilter::NamedAfter, name, i)) ==> newest_found(
        listing->0,
        EntryFilter::NamedAfter,
        name,
        r,
    )
    &&& no_exact && (listing matches Some(entries) && (!named || forall|j: int|
        0 <= j < entries.len() ==> !passes(#[trigger] entries[j], EntryFilter::NamedAfter, name)))
        ==> newest_found(listing->0, EntryFilter::RecentAt(now), Seq::<char>::empty(), r)
}

proof fn lemma_newest_path_found(entries: Seq<OutputEntry>, f: EntryFilter, name: Seq<char>)
    ensures
        newest_found(
            entries,
            f,
            name,
            match newest_path(entries, f, name) {
                Some(p) => p,
                None => None,
            },
        ),
{
    assert forall|i: int| first_newest(entries, f, name, i) implies (match newest_path(entries, f, name) {
        Some(p) => p,
        None => None,
    }) == entries[i].path by {
        let k = choose|k: int| first_newest(entries, f, name, k);
        lemma_first_newest_unique(entries, f, name, i, k);
    }
    if forall|j: int| 0 <= j < entries.len() ==> !passes(#[trigger] entries[j], f, name) {
        if exists|i: int| first_newest(entries, f, name, i) {
            let k = choose|k: int| first_newest(entries, f, name, k);
            assert(passes(entries[k], f, name));
        }
    }
}

proof fn lemma_recent_ignores_name(entries: Seq<OutputEntry>, now: Timestamp, name: Seq<char>, r: Option<String>)
    requires
        newest_found(entries, EntryFilter::RecentAt(now), name, r),
    ensures
        newest_found(entries, EntryFilter::RecentAt(now), Seq::<char>::empty(), r),
{
    assert forall|i: int| first_newest(entries, EntryFilter::RecentAt(now), Seq::<char>::empty(), i) implies r
        == entries[i].path by {
        assert forall|j: int|
            0 <= j < entries.len() && passes(#[trigger] entries[j], EntryFilter::RecentAt(now), name) implies passes(
            entries[j],
            EntryFilter::RecentAt(now),
            Seq::<char>::empty(),
        ) by {}
        assert(first_newest(entries, EntryFilter::RecentAt(now), name, i));
    }
    if forall|j: int|
        0 <= j < entries.len() ==> !passes(#[trigger] entries[j], EntryFilter::RecentAt(now), Seq::<char>::empty()) {
        assert forall|j: int| 0 <= j < entries.len() implies !passes(
            #[trigger] entries[j],
            EntryFilter::RecentAt(now),
            name,
        ) by {
            assert(!passes(entries[j], EntryFilter::RecentAt(now), Seq::<char>::empty()));
        }
    }
}

proof fn lemma_first_found(exact: Seq<ExactProbe>, k: int, m: int)
    requires
        0 <= m <= k < 6,
        k < exact.len(),
        exact[k] is Some,
        forall|j: int| 0 <= j < k ==> exact[j] is None,
    ensures
        first_found_from(exact, m) == exact[k],
    decreases k - m,
{
    if m < k {
        assert(exact[m] is None);
        lemma_first_found(exact, k, m + 1);
    }
}

proof fn lemma_no_exact(exact: Seq<ExactProbe>, m: int)
    requires
        0 <= m <= 6,
        forall|k: int| 0 <= k < 6 && k < exact.len() ==> #[trigger] exact[k] is None,
    ensures
        first_found_from(exact, m) is None,
    decreases 6 - m,
{
    if m < 6 && m < exact.len() {
        assert(exact[m] is None);
        lemma_no_exact(exact, m + 1);
    }
}

proof fn lemma_recent_path_ignores_name(entries: Seq<OutputEntry>, now: Timestamp, a: Seq<char>, b: Seq<char>)
    ensures
        newest_path(entries, EntryFilter::RecentAt(now), a) == newest_path(entries, EntryFilter::RecentAt(now), b),
{
    let f = EntryFilter::RecentAt(now);
    assert forall|j: int| 0 <= j < entries.len() implies passes(#[trigger] entries[j], f, a) == passes(entries[j], f, b) by {}
    assert forall|i: int| first_newest(entries, f, a, i) == first_newest(entries, f, b, i) by {
        if 0 <= i < entries.len() {
            assert(passes(entries[i], f, a) == passes(entries[i], f, b));
        }
    }
    if exists|i: int| first_newest(entries, f, a, i) {
        let ka = choose|i: int| first_newest(entries, f, a, i);
        let kb = choose|i: int| first_newest(entries, f, b, i);
        assert(first_newest(entries, f, a, kb));
        lemma_first_newest_unique(entries, f, a, ka, kb);
    }
}

/// The file a finished download produced follows the rules of
/// [`found_output`]: an existing `name.ext` first, then the newest video
/// named after the save name, then, save name or not, the newest video
/// written within the last minute; in particular, when nothing is named after
/// the save name, the file chosen is the one chosen with no save name.
pub proof fn law_output_choice(
    save_name: Option<Seq<char>>,
    exact: Seq<ExactProbe>,
    listing: Option<Seq<OutputEntry>>,
    now: Timestamp,
)
    ensures
        found_output(save_name, exact, listing, now, chosen_output(save_name, exact, listing, now)),
        ({
            let named = save_name matches Some(n) && n.len() > 0;
            (first_found_from(exact, 0) is None && (listing matches Some(entries) && forall|j: int|
                0 <= j < entries.len() ==> !passes(#[trigger] entries[j], EntryFilter::NamedAfter, save_name->0)))
                ==> chosen_output(save_name, exact, listing, now) == chosen_output(None, exact, listing, now)
        }),
{
    let r = chosen_output(save_name, exact, listing, now);
    let named = save_name matches Some(n) && n.len() > 0;
    let name = match save_name {
        Some(n) => n,
        None => Seq::<char>::empty(),
    };
    if named {
        assert forall|k: int|
            0 <= k < 6 && k < exact.len() && #[trigger] exact[k] is Some && (forall|j: int|
                0 <= j < k ==> exact[j] is None) implies r == exact[k]->0 by {
            lemma_first_found(exact, k, 0);
        }
        if forall|k: int| 0 <= k < 6 && k < exact.len() ==> #[trigger] exact[k] is None {
            lemma_no_exact(exact, 0);
        }
    }
    if let Some(entries) = listing {
        lemma_newest_path_found(entries, EntryFilter::NamedAfter, name);
        lemma_newest_path_found(entries, EntryFilter::RecentAt(now), name);
        lemma_newest_path_found(entries, EntryFilter::RecentAt(now), Seq::<char>::empty());
        lemma_recent_ignores_name(entries, now, name, match newest_path(entries, EntryFilter::RecentAt(now), name) {
            Some(p) => p,
            None => None,
        });
        lemma_recent_path_ignores_name(entries, now, name, Seq::<char>::empty());
        if named && forall|j: int| 0 <= j < entries.len() ==> !passes(#[trigger] entries[j], EntryFilter::NamedAfter, name) {
            if exists|i: int| first_newest(entries, EntryFilter::NamedAfter, name, i) {
                let k = choose|k: int| first_newest(entries, EntryFilter::NamedAfter, name, k);
                assert(passes(entries[k], EntryFilter::NamedAfter, name));
            }
        }
    }
}

fn first_exact(exact: &Vec<ExactProbe>) -> (r: Option<usize>)
    ensures
        match r {
            Some(k) => k < exact@.len() && k < 6 && exact@[k as int] is Some && first_found_from(exact@, 0)
                == exact@[k as int],
            None => first_found_from(exact@, 0) is None,
        },
{
    let mut k: usize = 0;
    while k < exact.len() && k < 6
        invariant
            k <= exact@.len(),
            k <= 6,
            first_found_from(exact@, 0) == first_found_from(exact@, k as int),
        decreases 6 - k,
    {
        if exact[k].is_some() {
            return Some(k);
        }
        k = k + 1;
    }
    None
}

/// The file a finished download produced, found in the download directory:
/// when the task has a save name, the first file `name.ext` that exists (as
/// `exact` reports for the names of [`exact_output_names`], in order), else the
/// newest listed video file whose name starts with the save name; failing
/// that, the newest listed video file modified within a minute of `now`. The
/// result is the chosen file's path, none when it is not valid text or when
/// nothing qualifies. `listing` is the directory's files, none when it could
/// not be read.
pub fn select_output_file(
    save_name: &Option<String>,
    exact: &Vec<ExactProbe>,
    listing: &Option<Vec<OutputEntry>>,
    now: Timestamp,
) -> (r: Option<String>)
    ensures
        r == chosen_output(
            opt_view(*save_name),
            exact@,
            match listing {
                Some(v) => Some(v@),
                None => None,
            },
            now,
        ),
        found_output(
            opt_view(*save_name),
            exact@,
            match listing {
                Some(v) => Some(v@),
                None => None,
            },
            now,
            r,
        ),
{
    proof {
        law_output_choice(
            opt_view(*save_name),
            exact@,
            match listing {
                Some(v) => Some(v@),
                None => None,
            },
            now,
        );
    }
    let named = match save_name {
        Some(n) => !n.as_str().is_empty(),
        None => false,
    };
    let name: &str = match save_name {
        Some(n) => n.as_str(),
        None => "",
    };
    proof {
        reveal_strlit("");
        assert(name@ =~= match opt_view(*save_name) {
            Some(n) => n,
            None => Seq::<char>::empty(),
        });
    }
    if named {
        match first_exact(exact) {
            Some(k) => {
                return match &exact[k] {
                    Some(Some(p)) => Some(p.clone()),
                    _ => None,
                };
            },
            None => {},
        }
    }
    match listing {
        None => None,
        Some(entries) => {
            if named {
                match newest_entry(entries, EntryFilter::NamedAfter, name) {
                    Some(i) => {
                        return match &entries[i].path {
                            Some(p) => Some(p.clone()),
                            None => None,
                        };
                    },
                    None => {},
                }
            }
            match newest_entry(entries, EntryFilter::RecentAt(now), name) {
                Some(i) => match &entries[i].path {
                    Some(p) => Some(p.clone()),
                    None => None,
                },
                None => None,
            }
        },
    }
}

} // verus!
