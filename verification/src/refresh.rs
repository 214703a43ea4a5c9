use vstd::prelude::*;

use crate::num::{decimal, usize_text};
use crate::text::{strs, to_chars};

verus! {

// ---------------------------------------------------------------------------
// Deciding what to do with a note
// ---------------------------------------------------------------------------

/// What the cache says about a note before it is read.
pub enum CacheCheck {
    /// The cache holds the note with the same modification time: skip it.
    Unchanged,
    /// The cache holds an older version: read it and update the paper.
    Changed,
    /// The cache does not hold the note: read it and add the paper.
    New,
}

/// Compares the modification time that the cache holds for a note with the
/// note's current one.
pub fn check_cache(cached: &Option<String>, modified_at: &str) -> (c: CacheCheck)
    ensures
        match cached {
            None => c is New,
            Some(m) => if m@ == modified_at@ {
                c is Unchanged
            } else {
                c is Changed
            },
        },
{
    match cached {
        None => CacheCheck::New,
        Some(m) => {
            if crate::text::eq_chars(&to_chars(m.as_str()), &to_chars(modified_at)) {
                CacheCheck::Unchanged
            } else {
                CacheCheck::Changed
            }
        },
    }
}

/// What became of one note during a build.
pub enum FileOutcome {
    /// Its modification time or its text could not be read, or it could not
    /// be parsed or stored.
    Error,
    /// The cache already held it unchanged.
    Unchanged,
    /// It is not a paper.
    NotPaper,
    /// Its paper was stored for the first time.
    Added,
    /// Its paper replaced an older version.
    Updated,
}

/// The outcome of a note that was read and parsed into a paper, once the
/// attempt to store it is known.
pub fn stored_outcome(check: &CacheCheck, stored: bool) -> (o: FileOutcome)
    ensures
        !stored ==> o is Error,
        stored && check is Changed ==> o is Updated,
        stored && !(check is Changed) ==> o is Added,
{
    if !stored {
        FileOutcome::Error
    } else if let CacheCheck::Changed = check {
        FileOutcome::Updated
    } else {
        FileOutcome::Added
    }
}

/// Adds the path of a note to the notes whose cache entries stay, unless the
/// note turned out not to be a paper: the cache holds papers only, so the
/// entry of a note that lost its tag `学術論文` is removed with those of
/// vanished notes (see [`crate::query::paths_to_delete`]).
pub fn keep_path(kept: &mut Vec<String>, path: String, o: &FileOutcome)
    ensures
        strs(final(kept)@) == if o is NotPaper {
            strs(old(kept)@)
        } else {
            strs(old(kept)@).push(path@)
        },
{
    match o {
        FileOutcome::NotPaper => {},
        _ => {
            let ghost before = kept@;
            kept.push(path);
            proof {
                crate::text::lemma_strs_push(before, kept@.last());
            }
        },
    }
}

/// A note that is not a paper does not keep its cache entry: whatever the
/// cache held for it is among the paths to remove.
pub proof fn law_non_paper_entries_are_removed(
    cached: Seq<Seq<char>>,
    kept: Seq<Seq<char>>,
    path: Seq<char>,
)
    requires
        cached.contains(path),
        !kept.contains(path),
    ensures
        crate::query::removed_paths(cached, kept).contains(path),
{
    crate::query::law_removed_paths(cached, kept, path);
}

// ---------------------------------------------------------------------------
// Counting
// ---------------------------------------------------------------------------

/// The counters of a build over `total` notes.
pub struct BuildCounts {
    pub total: usize,
    pub processed: usize,
    pub added: usize,
    pub updated: usize,
    pub skipped: usize,
    pub parse_skipped: usize,
    pub errors: usize,
}

impl BuildCounts {
    /// Every processed note is counted exactly once, and no more notes are
    /// processed than there are.
    pub open spec fn wf(&self) -> bool {
        &&& self.added + self.updated + self.skipped + self.parse_skipped + self.errors
            == self.processed
        &&& self.processed <= self.total
    }

    /// No note processed yet.
    pub fn new(total: usize) -> (c: Self)
        ensures
            c.wf(),
            c.total == total,
            c.processed == 0,
    {
        BuildCounts {
            total,
            processed: 0,
            added: 0,
            updated: 0,
            skipped: 0,
            parse_skipped: 0,
            errors: 0,
        }
    }

    /// Counts the outcome of the next note (see [`recorded`]).
    pub fn record(&mut self, o: FileOutcome)
        requires
            old(self).wf(),
            old(self).processed < old(self).total,
        ensures
            final(self).wf(),
            *final(self) == recorded(*old(self), o),
    {
        match o {
            FileOutcome::Error => self.errors = self.errors + 1,
            FileOutcome::Unchanged => self.skipped = self.skipped + 1,
            FileOutcome::NotPaper => self.parse_skipped = self.parse_skipped + 1,
            FileOutcome::Added => self.added = self.added + 1,
            FileOutcome::Updated => self.updated = self.updated + 1,
        }
        self.processed = self.processed + 1;
    }
}

/// The counters after one more note: `processed` and the counter of the
/// note's outcome go up by one.
pub open spec fn recorded(c: BuildCounts, o: FileOutcome) -> BuildCounts {
    let c1 = BuildCounts { processed: (c.processed + 1) as usize, ..c };
    match o {
        FileOutcome::Error => BuildCounts { errors: (c.errors + 1) as usize, ..c1 },
        FileOutcome::Unchanged => BuildCounts { skipped: (c.skipped + 1) as usize, ..c1 },
        FileOutcome::NotPaper => BuildCounts { parse_skipped: (c.parse_skipped + 1) as usize, ..c1 },
        FileOutcome::Added => BuildCounts { added: (c.added + 1) as usize, ..c1 },
        FileOutcome::Updated => BuildCounts { updated: (c.updated + 1) as usize, ..c1 },
    }
}

/// The counters after the outcomes `outs`, in order.
pub open spec fn recorded_all(c: BuildCounts, outs: Seq<FileOutcome>) -> BuildCounts
    decreases outs.len(),
{
    if outs.len() == 0 {
        c
    } else {
        recorded(recorded_all(c, outs.drop_last()), outs.last())
    }
}

/// Counting keeps every note counted once: from well-formed counters, any
/// outcomes of at most the remaining notes give well-formed counters whose
/// `processed` grew by their number.
pub proof fn law_counts_stay_consistent(c: BuildCounts, outs: Seq<FileOutcome>)
    requires
        c.wf(),
        c.processed + outs.len() <= c.total,
    ensures
        recorded_all(c, outs).wf(),
        recorded_all(c, outs).processed == c.processed + outs.len(),
        recorded_all(c, outs).total == c.total,
    decreases outs.len(),
{
    if outs.len() > 0 {
        law_counts_stay_consistent(c, outs.drop_last());
    }
}

/// A build over notes that the cache holds unchanged adds and updates
/// nothing and skips every one of them.
pub proof fn law_unchanged_notes_are_skipped(total: usize, outs: Seq<FileOutcome>)
    requires
        outs.len() <= total,
        forall|i: int| 0 <= i < outs.len() ==> #[trigger] outs[i] is Unchanged,
    ensures
        ({
            let c = recorded_all(
                BuildCounts {
                    total,
                    processed: 0,
                    added: 0,
                    updated: 0,
                    skipped: 0,
                    parse_skipped: 0,
                    errors: 0,
                },
                outs,
            );
            c.added == 0 && c.updated == 0 && c.skipped == outs.len() && c.processed == outs.len()
        }),
    decreases outs.len(),
{
    if outs.len() > 0 {
        let rest = outs.drop_last();
        assert forall|i: int| 0 <= i < rest.len() implies #[trigger] rest[i] is Unchanged by {
            assert(rest[i] == outs[i]);
        }
        law_unchanged_notes_are_skipped(total, rest);
        assert(outs.last() is Unchanged);
    }
}

// ---------------------------------------------------------------------------
// The summary
// ---------------------------------------------------------------------------

/// `label` followed by the decimal text of `n`.
pub open spec fn count_line(label: Seq<char>, n: usize) -> Seq<char> {
    label + decimal(n as nat)
}

/// The lines that end a build: the counts, the number of papers removed
/// because their notes are gone or are no longer papers, the errors if there were any, and the
/// database used.
pub open spec fn summary_lines(c: BuildCounts, deleted: usize, db: Seq<char>) -> Seq<Seq<char>> {
    seq![
        ""@,
        "=== Build Summary ==="@,
        count_line("  Total files scanned : "@, c.total),
        count_line("  Added               : "@, c.added),
        count_line("  Updated             : "@, c.updated),
        count_line("  Skipped (unchanged) : "@, c.skipped),
        count_line("  Skipped (non-paper) : "@, c.parse_skipped),
        count_line("  Deleted (removed)   : "@, deleted),
    ] + (if c.errors > 0 {
        seq![count_line("  Errors              : "@, c.errors)]
    } else {
        Seq::empty()
    }) + seq!["  Database            : "@ + db]
}

fn push_count_line(lines: &mut Vec<String>, label: &str, n: usize)
    ensures
        strs(final(lines)@) == strs(old(lines)@).push(count_line(label@, n)),
{
    let mut s = String::from_str(label);
    let d = usize_text(n);
    s.append(crate::text::string_from_chars(d.as_slice()).as_str());
    let ghost before = lines@;
    lines.push(s);
    proof {
        crate::text::lemma_strs_push(before, lines@.last());
    }
}

/// The lines that end a build (see [`summary_lines`]).
pub fn build_summary(c: &BuildCounts, deleted: usize, db: &str) -> (lines: Vec<String>)
    ensures
        strs(lines@) == summary_lines(*c, deleted, db@),
{
    let mut lines: Vec<String> = Vec::new();
    assert(strs(lines@) =~= Seq::<Seq<char>>::empty());
    crate::report::push_line(&mut lines, "");
    crate::report::push_line(&mut lines, "=== Build Summary ===");
    push_count_line(&mut lines, "  Total files scanned : ", c.total);
    push_count_line(&mut lines, "  Added               : ", c.added);
    push_count_line(&mut lines, "  Updated             : ", c.updated);
    push_count_line(&mut lines, "  Skipped (unchanged) : ", c.skipped);
    push_count_line(&mut lines, "  Skipped (non-paper) : ", c.parse_skipped);
    push_count_line(&mut lines, "  Deleted (removed)   : ", deleted);
    let ghost mid = strs(lines@);
    if c.errors > 0 {
        push_count_line(&mut lines, "  Errors              : ", c.errors);
    }
    let ghost before = lines@;
    let mut s = String::from_str("  Database            : ");
    s.append(db);
    lines.push(s);
    proof {
        crate::text::lemma_strs_push(before, lines@.last());
    }
    assert(strs(lines@) =~= summary_lines(*c, deleted, db@));
    lines
}

} // verus!
