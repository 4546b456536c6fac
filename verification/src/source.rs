//! Where resources are looked up: the map's own archive first, then those of the game.

use crate::text::{concat, ends_with, eq_ignore_ascii_case, to_ascii_lowercase, trim_suffix};
use vstd::prelude::*;

verus! {

/// Why a resource could not be had.
#[derive(Debug)]
#[allow(inconsistent_fields)]
pub enum SourceError {
    Open { path: String, message: String },
    NotFound { path: String },
    Read { path: String, message: String },
    Parse { path: String, message: String },
}

/// The message of an error.
pub open spec fn source_error_text(e: SourceError) -> Seq<char> {
    match e {
        SourceError::Open { path, message } => "failed to open VPK "@ + path@ + ": "@ + message@,
        SourceError::NotFound { path } => path@ + " not found in any source VPK"@,
        SourceError::Read { path, message } => "failed to read "@ + path@ + " from VPK: "@
            + message@,
        SourceError::Parse { path, message } => "failed to parse "@ + path@ + " as a resource: "@
            + message@,
    }
}

impl SourceError {
    /// The message.
    pub fn message(&self) -> (r: String)
        ensures
            r@ == source_error_text(*self),
    {
        match self {
            SourceError::Open { path, message } => {
                let mut r: String = concat("failed to open VPK ", path.as_str());
                r.append(": ");
                r.append(message.as_str());
                r
            },
            SourceError::NotFound { path } => concat(
                path.as_str(),
                " not found in any source VPK",
            ),
            SourceError::Read { path, message } => {
                let mut r: String = concat("failed to read ", path.as_str());
                r.append(" from VPK: ");
                r.append(message.as_str());
                r
            },
            SourceError::Parse { path, message } => {
                let mut r: String = concat("failed to parse ", path.as_str());
                r.append(" as a resource: ");
                r.append(message.as_str());
                r
            },
        }
    }
}

/// The path of a compiled resource.
pub open spec fn compiled(path: Seq<char>) -> Seq<char> {
    crate::text::without_suffix(path, "_c"@) + "_c"@
}

/// The path of a compiled resource: with one `_c` at its end, whether or not it had it.
pub fn compiled_path(path: &str) -> (r: String)
    ensures
        r@ == compiled(path@),
{
    let stripped: String = trim_suffix(path, "_c");
    concat(stripped.as_str(), "_c")
}

/// A compiled path stays as it is when it is compiled again.
pub proof fn compiling_twice_changes_nothing(path: Seq<char>)
    ensures
        compiled(compiled(path)) == compiled(path),
{
    let base = crate::text::without_suffix(path, "_c"@);
    let once = base + "_c"@;
    assert(once.subrange(once.len() - "_c"@.len(), once.len() as int) =~= "_c"@);
    assert(once.subrange(0, once.len() - "_c"@.len()) =~= base);
    assert("_c"@.is_suffix_of(once));
}

/// One entry of an archive.
#[derive(Debug, Clone)]
pub struct ArchiveEntry {
    pub path: String,
    pub extension: String,
}

/// What the archives hold, in the order in which they are searched; the first is the map's own.
#[derive(Debug, Clone)]
pub struct Listing {
    pub archives: Vec<Vec<ArchiveEntry>>,
}

/// Whether an entry's path ends with a text, once it is in lower case.
pub open spec fn ends_lower(e: ArchiveEntry, suffix: Seq<char>) -> bool {
    suffix.is_suffix_of(crate::text::ascii_lowered(e.path@))
}

/// The first entry of an archive that ends with a text, from `from` on.
pub open spec fn ending_from(v: Seq<ArchiveEntry>, suffix: Seq<char>, from: int) -> Option<int>
    decreases v.len() - from,
{
    if from < 0 || from >= v.len() {
        None
    } else if ends_lower(v[from], suffix) {
        Some(from)
    } else {
        ending_from(v, suffix, from + 1)
    }
}

/// The first archive, from `from` on, with an entry that ends with a text, and that entry.
pub open spec fn ending_in(v: Seq<Vec<ArchiveEntry>>, suffix: Seq<char>, from: int) -> Option<
    (int, int),
>
    decreases v.len() - from,
{
    if from < 0 || from >= v.len() {
        None
    } else {
        match ending_from(v[from]@, suffix, 0) {
            Some(i) => Some((from, i)),
            None => ending_in(v, suffix, from + 1),
        }
    }
}

/// The paths of the entries with an extension.
pub open spec fn paths_with(v: Seq<ArchiveEntry>, ext: Seq<char>) -> Seq<Seq<char>>
    decreases v.len(),
{
    if v.len() == 0 {
        Seq::empty()
    } else if crate::text::same_ignoring_case(v.last().extension@, ext) {
        paths_with(v.drop_last(), ext).push(v.last().path@)
    } else {
        paths_with(v.drop_last(), ext)
    }
}

impl Listing {
    /// The first entry, in the order of the archives, whose path ends with `suffix`: the index of
    /// its archive and its own.
    pub fn find_ending_with(&self, suffix: &str) -> (r: Option<(usize, usize)>)
        ensures
            match r {
                Some(p) => ending_in(self.archives@, suffix@, 0) == Some(
                    (p.0 as int, p.1 as int),
                ),
                None => ending_in(self.archives@, suffix@, 0) is None,
            },
    {
        let mut a: usize = 0;
        while a < self.archives.len()
            invariant
                a <= self.archives@.len(),
                ending_in(self.archives@, suffix@, 0) == ending_in(
                    self.archives@,
                    suffix@,
                    a as int,
                ),
            decreases self.archives@.len() - a,
        {
            let entries: &Vec<ArchiveEntry> = &self.archives[a];
            let mut i: usize = 0;
            while i < entries.len()
                invariant
                    i <= entries@.len(),
                    a < self.archives@.len(),
                    *entries == self.archives@[a as int],
                    ending_in(self.archives@, suffix@, 0) == ending_in(
                        self.archives@,
                        suffix@,
                        a as int,
                    ),
                    ending_from(entries@, suffix@, 0) == ending_from(
                        entries@,
                        suffix@,
                        i as int,
                    ),
                decreases entries@.len() - i,
            {
                let lower: String = to_ascii_lowercase(entries[i].path.as_str());
                if ends_with(lower.as_str(), suffix) {
                    return Some((a, i));
                }
                i += 1;
            }
            a += 1;
        }
        None
    }

    /// The paths of the map's own entries with an extension.
    pub fn entries_with_extension(&self, ext: &str) -> (r: Vec<String>)
        ensures
            crate::text::texts(r@) == if self.archives@.len() == 0 {
                Seq::empty()
            } else {
                paths_with(self.archives@[0]@, ext@)
            },
    {
        let mut out: Vec<String> = Vec::new();
        assert(crate::text::texts(out@) =~= Seq::<Seq<char>>::empty());
        if self.archives.len() == 0 {
            return out;
        }
        let entries: &Vec<ArchiveEntry> = &self.archives[0];
        let mut i: usize = 0;
        while i < entries.len()
            invariant
                i <= entries@.len(),
                crate::text::texts(out@) == paths_with(entries@.take(i as int), ext@),
            decreases entries@.len() - i,
        {
            proof {
                assert(entries@.take(i + 1).drop_last() =~= entries@.take(i as int));
                assert(entries@.take(i + 1).last() == entries@[i as int]);
            }
            if eq_ignore_ascii_case(entries[i].extension.as_str(), ext) {
                let path: String = entries[i].path.clone();
                proof {
                    crate::text::lemma_texts_push(out@, path);
                }
                out.push(path);
            }
            i += 1;
        }
        assert(entries@.take(i as int) =~= entries@);
        out
    }
}

/// The first of several that holds.
pub open spec fn first_true(v: Seq<bool>, from: int) -> Option<int>
    decreases v.len() - from,
{
    if from < 0 || from >= v.len() {
        None
    } else if v[from] {
        Some(from)
    } else {
        first_true(v, from + 1)
    }
}

/// The archive that a resource is read from: the first that has it. What a later archive has under
/// the same path does not count, even if the first cannot be read.
pub fn pick_archive(has: &Vec<bool>) -> (r: Option<usize>)
    ensures
        match r {
            Some(i) => first_true(has@, 0) == Some(i as int),
            None => first_true(has@, 0) is None,
        },
{
    let mut i: usize = 0;
    while i < has.len()
        invariant
            i <= has@.len(),
            first_true(has@, 0) == first_true(has@, i as int),
        decreases has@.len() - i,
    {
        if has[i] {
            return Some(i);
        }
        i += 1;
    }
    None
}

/// The message for a resource that is in no archive.
pub open spec fn not_found_text(path: Seq<char>) -> Seq<char> {
    path + ": not found"@
}

/// The message for a resource that is in no archive.
pub fn not_found(path: &str) -> (r: String)
    ensures
        r@ == not_found_text(path@),
{
    concat(path, ": not found")
}

/// The message for a step that failed on a resource.
pub open spec fn failed_text(path: Seq<char>, what: Seq<char>, why: Seq<char>) -> Seq<char> {
    path + ": "@ + what + ": "@ + why
}

/// The message for a step that failed on a resource.
pub fn failed(path: &str, what: &str, why: &str) -> (r: String)
    ensures
        r@ == failed_text(path@, what@, why@),
{
    let mut r: String = concat(path, ": ");
    r.append(what);
    r.append(": ");
    r.append(why);
    r
}

} // verus!
