//! The file processor: applies size filtering, extension throttling, and
//! the bounded-read driver's decisions, in that order, and emits one
//! outcome per directory entry. The caller walks the directory tree,
//! fetches metadata and reads file bytes; every decision lives here.

use vstd::prelude::*;
use crate::args::CriteriaArg;
use crate::criteria::{Classifier, Consuming, DeflatableFiles, Ratio, Selection, TextFiles};
use crate::error::ProcError;

verus! {

/// The outcome of checking one directory entry.
#[derive(PartialEq, Debug)]
pub enum Checked {
    /// The entry is not a regular file (a directory or symlink).
    NotFile,
    /// The file is below the configured minimum size.
    TooSmall,
    /// The file passed the size filter and the content heuristic: its size
    /// and, under the deflate criterion, the achieved compression ratio.
    Candidate(u64, Option<Ratio>),
    /// The content heuristic rejected the file, or its extension is
    /// currently throttled.
    Ignored,
    /// This very file pushed its extension's miss count past the limit;
    /// reported once, at the transition.
    IgnoredExt(Vec<u8>),
}

/// What the processor decides about an entry before any content is read.
#[derive(Clone, Copy, PartialEq, Eq, Structural, Debug)]
pub enum PreCheck {
    /// Not a regular file: emit `Checked::NotFile` and stop.
    NotFile,
    /// Below the minimum size: emit `Checked::TooSmall` and stop.
    TooSmall,
    /// The extension is throttled: emit `Checked::Ignored` without ever
    /// opening the file.
    Throttled,
    /// The file must be opened, read and classified.
    Classify,
}

/// One step of the bounded-read driver: how many bytes of the caller's
/// buffer were consumed, and whether another buffer is wanted.
#[derive(Clone, Copy, PartialEq, Eq, Structural, Debug)]
pub struct FeedStep {
    pub consumed: usize,
    pub more: bool,
}

/// Whether some entry of the throttle table holds this extension.
pub open spec fn has_ext(entries: Seq<(Vec<u8>, usize)>, key: Seq<u8>) -> bool {
    exists|i: int| 0 <= i < entries.len() && entries[i].0@ == key
}

/// The miss count the throttle table stores for this extension, if any.
pub open spec fn ext_count(entries: Seq<(Vec<u8>, usize)>, key: Seq<u8>) -> Option<usize> {
    if has_ext(entries, key) {
        Some(entries[choose|i: int| 0 <= i < entries.len() && entries[i].0@ == key].1)
    } else {
        None
    }
}

/// The throttle table never stores an extension twice.
pub open spec fn table_wf(entries: Seq<(Vec<u8>, usize)>) -> bool {
    forall|i: int, j: int| 0 <= i < j < entries.len() ==> entries[i].0@ != entries[j].0@
}

/// The entry at a valid index is exactly what the lookup finds.
proof fn lemma_ext_count_at(entries: Seq<(Vec<u8>, usize)>, i: int)
    requires
        table_wf(entries),
        0 <= i < entries.len(),
    ensures
        ext_count(entries, entries[i].0@) == Some(entries[i].1),
{
    let key = entries[i].0@;
    assert(has_ext(entries, key));
    let j = choose|j: int| 0 <= j < entries.len() && entries[j].0@ == key;
    if i < j {
        assert(entries[i].0@ != entries[j].0@);
    } else if j < i {
        assert(entries[j].0@ != entries[i].0@);
    }
}

/// A key no entry holds is not found.
proof fn lemma_ext_count_absent(entries: Seq<(Vec<u8>, usize)>, key: Seq<u8>)
    requires
        forall|j: int| 0 <= j < entries.len() ==> entries[j].0@ != key,
    ensures
        ext_count(entries, key) == None::<usize>,
{
}

/// Removing entry `i` forgets exactly that extension and nothing else.
proof fn lemma_ext_count_remove(entries: Seq<(Vec<u8>, usize)>, i: int)
    requires
        table_wf(entries),
        0 <= i < entries.len(),
    ensures
        table_wf(entries.remove(i)),
        ext_count(entries.remove(i), entries[i].0@) == None::<usize>,
        forall|k: Seq<u8>|
            k != entries[i].0@ ==> ext_count(entries.remove(i), k) == ext_count(entries, k),
{
    let rem = entries.remove(i);
    entries.remove_ensures(i);
    assert forall|a: int, b: int| 0 <= a < b < rem.len() implies rem[a].0@ != rem[b].0@ by {
        let a0 = if a < i { a } else { a + 1 };
        let b0 = if b < i { b } else { b + 1 };
        assert(rem[a] == entries[a0]);
        assert(rem[b] == entries[b0]);
        assert(entries[a0].0@ != entries[b0].0@);
    }
    assert forall|j: int| 0 <= j < rem.len() implies rem[j].0@ != entries[i].0@ by {
        let j0 = if j < i { j } else { j + 1 };
        assert(rem[j] == entries[j0]);
        if j0 < i {
            assert(entries[j0].0@ != entries[i].0@);
        } else {
            assert(entries[i].0@ != entries[j0].0@);
        }
    }
    lemma_ext_count_absent(rem, entries[i].0@);
    assert forall|k: Seq<u8>| k != entries[i].0@ implies ext_count(rem, k) == ext_count(entries, k)
        by {
        if has_ext(entries, k) {
            let j = choose|j: int| 0 <= j < entries.len() && entries[j].0@ == k;
            let jr = if j < i { j } else { j - 1 };
            assert(rem[jr] == entries[j]);
            assert(has_ext(rem, k));
            lemma_ext_count_at(rem, jr);
            lemma_ext_count_at(entries, j);
        } else {
            assert forall|j: int| 0 <= j < rem.len() implies rem[j].0@ != k by {
                let j0 = if j < i { j } else { j + 1 };
                assert(rem[j] == entries[j0]);
            }
            lemma_ext_count_absent(rem, k);
        }
    }
}

/// Appending an entry for a fresh extension records exactly that extension
/// and nothing else.
proof fn lemma_ext_count_push(entries: Seq<(Vec<u8>, usize)>, p: (Vec<u8>, usize))
    requires
        table_wf(entries),
        ext_count(entries, p.0@) == None::<usize>,
    ensures
        table_wf(entries.push(p)),
        ext_count(entries.push(p), p.0@) == Some(p.1),
        forall|k: Seq<u8>| k != p.0@ ==> ext_count(entries.push(p), k) == ext_count(entries, k),
{
    let snoc = entries.push(p);
    assert forall|j: int| 0 <= j < entries.len() implies entries[j].0@ != p.0@ by {
        if entries[j].0@ == p.0@ {
            assert(has_ext(entries, p.0@));
        }
    }
    assert forall|a: int, b: int| 0 <= a < b < snoc.len() implies snoc[a].0@ != snoc[b].0@ by {
        assert(snoc[a] == entries[a]);
        if b < entries.len() {
            assert(snoc[b] == entries[b]);
        } else {
            assert(snoc[b] == p);
        }
    }
    assert(snoc[entries.len() as int] == p);
    lemma_ext_count_at(snoc, entries.len() as int);
    assert forall|k: Seq<u8>| k != p.0@ implies ext_count(snoc, k) == ext_count(entries, k) by {
        if has_ext(entries, k) {
            let j = choose|j: int| 0 <= j < entries.len() && entries[j].0@ == k;
            assert(snoc[j] == entries[j]);
            lemma_ext_count_at(snoc, j);
            lemma_ext_count_at(entries, j);
        } else {
            assert forall|j: int| 0 <= j < snoc.len() implies snoc[j].0@ != k by {
                if j < entries.len() {
                    assert(snoc[j] == entries[j]);
                } else {
                    assert(snoc[j] == p);
                }
            }
            lemma_ext_count_absent(snoc, k);
        }
    }
}

/// The extension under consideration, as the caller handed it in.
pub open spec fn opt_ext_view(ext: Option<&Vec<u8>>) -> Option<Seq<u8>> {
    match ext {
        Some(e) => Some(e@),
        None => None,
    }
}

/// Whether files with this extension are currently skipped outright:
/// its stored miss count is strictly greater than the check limit.
/// Files with no extension are never throttled.
pub open spec fn spec_should_skip(
    entries: Seq<(Vec<u8>, usize)>,
    limit: usize,
    ext: Option<Seq<u8>>,
) -> bool {
    match ext {
        Some(e) => match ext_count(entries, e) {
            Some(c) => c > limit,
            None => false,
        },
        None => false,
    }
}

/// The miss count after one more miss; a full counter stays put rather
/// than wrapping.
pub open spec fn bumped(c: usize) -> usize {
    if c == usize::MAX {
        usize::MAX
    } else {
        (c + 1) as usize
    }
}

/// The count currently stored for this extension, counting a missing
/// entry as zero.
pub open spec fn stored_count(entries: Seq<(Vec<u8>, usize)>, key: Seq<u8>) -> usize {
    match ext_count(entries, key) {
        Some(c) => c,
        None => 0,
    }
}

/// The outcome for a classified file whose extension plays no role.
pub open spec fn plain_outcome(s: Selection, size: u64) -> Checked {
    match s {
        Selection::Select(ratio) => Checked::Candidate(size, ratio),
        Selection::Ignore => Checked::Ignored,
    }
}

/// How recording one classification result changes the throttle table and
/// what outcome it produces: on a selection the extension's entry is
/// removed entirely; on a miss the count is created or bumped, and the call
/// that makes it exactly `limit + 1` reports the transition.
pub open spec fn recorded_outcome(
    table0: Seq<(Vec<u8>, usize)>,
    limit: usize,
    e: Option<Seq<u8>>,
    size: u64,
    s: Selection,
    table1: Seq<(Vec<u8>, usize)>,
    out: Checked,
) -> bool {
    match e {
        None => table1 == table0 && out == plain_outcome(s, size),
        Some(key) => match s {
            Selection::Select(ratio) => {
                &&& ext_count(table1, key) is None
                &&& (forall|k: Seq<u8>| k != key ==> ext_count(table1, k) == ext_count(table0, k))
                &&& out == Checked::Candidate(size, ratio)
            },
            Selection::Ignore => {
                let c1 = bumped(stored_count(table0, key));
                &&& ext_count(table1, key) == Some(c1)
                &&& (forall|k: Seq<u8>| k != key ==> ext_count(table1, k) == ext_count(table0, k))
                &&& if c1 == limit + 1 {
                    out matches Checked::IgnoredExt(v) && v@ == key
                } else {
                    out == Checked::Ignored
                }
            },
        },
    }
}

/// Compares two byte strings by content.
fn bytes_eq(a: &Vec<u8>, b: &Vec<u8>) -> (r: bool)
    ensures
        r == (a@ == b@),
{
    if a.len() != b.len() {
        return false;
    }
    let mut i: usize = 0;
    while i < a.len()
        invariant
            i <= a@.len(),
            a@.len() == b@.len(),
            forall|j: int| 0 <= j < i ==> a@[j] == b@[j],
        decreases a@.len() - i,
    {
        if a[i] != b[i] {
            return false;
        }
        i = i + 1;
    }
    proof {
        assert(a@ =~= b@);
    }
    true
}

/// Copies a byte string into an owned value.
fn copy_bytes(a: &Vec<u8>) -> (r: Vec<u8>)
    ensures
        r@ == a@,
{
    let mut r: Vec<u8> = Vec::new();
    let mut i: usize = 0;
    while i < a.len()
        invariant
            i <= a@.len(),
            r@ == a@.take(i as int),
        decreases a@.len() - i,
    {
        r.push(a[i]);
        proof {
            assert(a@.take(i + 1) =~= a@.take(i as int).push(a@[i as int]));
        }
        i = i + 1;
    }
    proof {
        assert(a@.take(a@.len() as int) =~= a@);
    }
    r
}

/// Finds the index of the table entry holding this extension, if any.
fn find_ext(entries: &Vec<(Vec<u8>, usize)>, key: &Vec<u8>) -> (r: Option<usize>)
    ensures
        match r {
            Some(i) => i < entries@.len() && entries@[i as int].0@ == key@,
            None => forall|j: int| 0 <= j < entries@.len() ==> entries@[j].0@ != key@,
        },
{
    let mut i: usize = 0;
    while i < entries.len()
        invariant
            i <= entries@.len(),
            forall|j: int| 0 <= j < i ==> entries@[j].0@ != key@,
        decreases entries@.len() - i,
    {
        if bytes_eq(&entries[i].0, key) {
            return Some(i);
        }
        i = i + 1;
    }
    None
}


/// The ceiling on one file's byte budget. A quarter of the 64-bit range
/// keeps the compression stream's output counter clear of its end even at
/// deflate's worst-case expansion; no real file comes anywhere near it.
pub const BLOCK_BUDGET_CAP: u64 = u64::MAX / 4;

/// The byte budget one file actually gets: the configured block size,
/// capped so the stream's counters cannot overflow.
pub open spec fn spec_budget(block_size: u64) -> u64 {
    if block_size <= BLOCK_BUDGET_CAP {
        block_size
    } else {
        BLOCK_BUDGET_CAP
    }
}

/// The window of a file the driver actually inspects: its leading bytes,
/// capped at the byte budget.
pub open spec fn spec_window(block_size: u64, data: Seq<u8>) -> Seq<u8> {
    if data.len() <= spec_budget(block_size) {
        data
    } else {
        data.take(spec_budget(block_size) as int)
    }
}

/// Which pre-content decision the processor reaches for an entry.
pub open spec fn spec_pre_check(
    min_size: u64,
    limit: usize,
    entries: Seq<(Vec<u8>, usize)>,
    is_file: bool,
    size: u64,
    ext: Option<Seq<u8>>,
) -> PreCheck {
    if !is_file {
        PreCheck::NotFile
    } else if size < min_size {
        PreCheck::TooSmall
    } else if spec_should_skip(entries, limit, ext) {
        PreCheck::Throttled
    } else {
        PreCheck::Classify
    }
}

/// The decision the configured classifier reaches on the window `w`: a
/// function of the window and the configuration alone, for either
/// criterion.
pub open spec fn window_decision(c: Classifier, w: Seq<u8>) -> Selection {
    if c.is_text_kind() {
        crate::criteria::text_selection(w)
    } else {
        crate::criteria::deflate_selection(
            w.len() as u64,
            crate::criteria::deflate_output_len(w),
            c.ceiling(),
        )
    }
}

/// Classifies directory entries one at a time: size filter, extension
/// throttle, then the bounded-read driver over the active classifier.
pub struct FileProcessor {
    pub min_size: u64,
    pub block_size: u64,
    pub check_limit: usize,
    pub ignored_exts: Vec<(Vec<u8>, usize)>,
    pub criteria: Classifier,
    pub remaining: u64,
}

impl FileProcessor {
    /// Internal consistency: a sound classifier, a duplicate-free throttle
    /// table, and a byte budget that cannot overflow the classifier's count.
    pub open spec fn wf(&self) -> bool {
        &&& self.criteria.wf()
        &&& self.criteria.ready()
        &&& self.criteria.seen().len() + self.remaining <= BLOCK_BUDGET_CAP
        &&& table_wf(self.ignored_exts@)
    }

    /// A processor with the default settings: one-gigabyte minimum,
    /// eight-kilobyte read budget, twenty misses tolerated, text criterion.
    pub fn new() -> (r: FileProcessor)
        ensures
            r.wf(),
            r.min_size == 1024u64 * 1024 * 1024,
            r.block_size == 8u64 * 1024,
            r.check_limit == 20usize,
            r.ignored_exts@ == Seq::<(Vec<u8>, usize)>::empty(),
            r.criteria.is_text_kind(),
            r.criteria.seen() == Seq::<u8>::empty(),
    {
        FileProcessor {
            min_size: 1024 * 1024 * 1024,
            block_size: 8 * 1024,
            check_limit: 20,
            ignored_exts: Vec::new(),
            criteria: Classifier::Text(TextFiles::new()),
            remaining: 0,
        }
    }

    pub fn set_min_size(&mut self, size: u64)
        requires
            old(self).wf(),
        ensures
            final(self).wf(),
            *final(self) == (FileProcessor { min_size: size, ..*old(self) }),
    {
        self.min_size = size;
    }

    pub fn set_block_size(&mut self, size: u64)
        requires
            old(self).wf(),
        ensures
            final(self).wf(),
            *final(self) == (FileProcessor { block_size: size, ..*old(self) }),
    {
        self.block_size = size;
    }

    pub fn set_check_limit(&mut self, limit: usize)
        requires
            old(self).wf(),
        ensures
            final(self).wf(),
            *final(self) == (FileProcessor { check_limit: limit, ..*old(self) }),
    {
        self.check_limit = limit;
    }

    /// Swaps in a classifier; the byte budget is cleared until the next
    /// file begins.
    pub fn set_criteria(&mut self, criteria: Classifier)
        requires
            old(self).wf(),
            criteria.wf(),
            criteria.ready(),
            criteria.seen().len() <= BLOCK_BUDGET_CAP,
        ensures
            final(self).wf(),
            *final(self) == (FileProcessor { criteria, remaining: 0u64, ..*old(self) }),
    {
        self.criteria = criteria;
        self.remaining = 0;
    }

    /// Whether files with this extension are currently skipped outright.
    pub fn ignore_extension(&self, ext: Option<&Vec<u8>>) -> (r: bool)
        requires
            self.wf(),
        ensures
            r == spec_should_skip(self.ignored_exts@, self.check_limit, opt_ext_view(ext)),
    {
        match ext {
            Some(e) => match find_ext(&self.ignored_exts, e) {
                Some(i) => {
                    proof {
                        lemma_ext_count_at(self.ignored_exts@, i as int);
                    }
                    self.ignored_exts[i].1 > self.check_limit
                },
                None => {
                    proof {
                        lemma_ext_count_absent(self.ignored_exts@, e@);
                    }
                    false
                },
            },
            None => false,
        }
    }

    /// Steps one to four for an entry: walk errors and metadata are the
    /// caller's business; everything the processor decides before reading
    /// a single content byte is decided here.
    pub fn pre_check(&self, is_file: bool, size: u64, ext: Option<&Vec<u8>>) -> (r: PreCheck)
        requires
            self.wf(),
        ensures
            r == spec_pre_check(
                self.min_size,
                self.check_limit,
                self.ignored_exts@,
                is_file,
                size,
                opt_ext_view(ext),
            ),
    {
        if !is_file {
            PreCheck::NotFile
        } else if size < self.min_size {
            PreCheck::TooSmall
        } else if self.ignore_extension(ext) {
            PreCheck::Throttled
        } else {
            PreCheck::Classify
        }
    }

    /// Records one classification result for an extension: a selection
    /// removes the entry entirely (one success resets trust), a miss is
    /// counted, and the miss that makes the count exactly `check_limit + 1`
    /// reports the transition so the caller can notify once.
    pub fn update_ignored_count(
        &mut self,
        ext: Option<&Vec<u8>>,
        size: u64,
        candidate: Selection,
    ) -> (r: Checked)
        requires
            old(self).wf(),
        ensures
            final(self).wf(),
            final(self).min_size == old(self).min_size,
            final(self).block_size == old(self).block_size,
            final(self).check_limit == old(self).check_limit,
            final(self).criteria == old(self).criteria,
            final(self).remaining == old(self).remaining,
            recorded_outcome(
                old(self).ignored_exts@,
                old(self).check_limit,
                opt_ext_view(ext),
                size,
                candidate,
                final(self).ignored_exts@,
                r,
            ),
    {
        if let Some(e) = ext {
            match candidate {
                Selection::Select(_) => {
                    if let Some(i) = find_ext(&self.ignored_exts, e) {
                        proof {
                            lemma_ext_count_remove(self.ignored_exts@, i as int);
                        }
                        self.ignored_exts.remove(i);
                    } else {
                        proof {
                            lemma_ext_count_absent(self.ignored_exts@, e@);
                        }
                    }
                },
                Selection::Ignore => {
                    let count: usize = match find_ext(&self.ignored_exts, e) {
                        Some(i) => {
                            let c = self.ignored_exts[i].1;
                            proof {
                                lemma_ext_count_at(self.ignored_exts@, i as int);
                                lemma_ext_count_remove(self.ignored_exts@, i as int);
                            }
                            self.ignored_exts.remove(i);
                            c
                        },
                        None => {
                            proof {
                                lemma_ext_count_absent(self.ignored_exts@, e@);
                            }
                            0
                        },
                    };
                    let bumped_count: usize = if count == usize::MAX {
                        usize::MAX
                    } else {
                        count + 1
                    };
                    let entry = (copy_bytes(e), bumped_count);
                    proof {
                        lemma_ext_count_absent(self.ignored_exts@, e@);
                        lemma_ext_count_push(self.ignored_exts@, entry);
                    }
                    self.ignored_exts.push(entry);
                    if self.check_limit < usize::MAX && bumped_count == self.check_limit + 1 {
                        return Checked::IgnoredExt(copy_bytes(e));
                    }
                },
            }
        }
        match candidate {
            Selection::Select(ratio) => Checked::Candidate(size, ratio),
            Selection::Ignore => Checked::Ignored,
        }
    }
}


/// The number of bytes of the caller's buffer one driver step consumes:
/// the whole buffer, capped at the remaining budget.
pub open spec fn spec_clamp(remaining: u64, len: nat) -> int {
    if remaining <= len {
        remaining as int
    } else {
        len as int
    }
}

impl FileProcessor {
    /// Opens the per-file driver: resets the classifier and grants the
    /// full byte budget.
    pub fn begin_file(&mut self)
        requires
            old(self).wf(),
        ensures
            final(self).wf(),
            final(self).min_size == old(self).min_size,
            final(self).block_size == old(self).block_size,
            final(self).check_limit == old(self).check_limit,
            final(self).ignored_exts == old(self).ignored_exts,
            final(self).remaining == spec_budget(old(self).block_size),
            final(self).criteria.seen() == Seq::<u8>::empty(),
            !final(self).criteria.done_now(),
            final(self).criteria.is_text_kind() == old(self).criteria.is_text_kind(),
            final(self).criteria.ceiling() == old(self).criteria.ceiling(),
    {
        self.criteria.initialize();
        self.remaining = if self.block_size <= BLOCK_BUDGET_CAP {
            self.block_size
        } else {
            BLOCK_BUDGET_CAP
        };
    }

    /// Whether the driver still has byte budget for the current file.
    pub fn has_budget(&self) -> (r: bool)
        ensures
            r == (self.remaining > 0),
    {
        self.remaining > 0
    }

    /// One step of the bounded-read driver: clamps the caller's buffer to
    /// the remaining budget, feeds that slice to the classifier, and says
    /// whether another buffer is wanted. An empty clamp (end of file, or
    /// an exhausted budget) ends the file's classification, as does the
    /// classifier announcing that it is done.
    pub fn feed(&mut self, buffer: &[u8]) -> (r: Result<FeedStep, ProcError>)
        requires
            old(self).wf(),
        ensures
            final(self).wf(),
            final(self).min_size == old(self).min_size,
            final(self).block_size == old(self).block_size,
            final(self).check_limit == old(self).check_limit,
            final(self).ignored_exts == old(self).ignored_exts,
            final(self).criteria.is_text_kind() == old(self).criteria.is_text_kind(),
            final(self).criteria.ceiling() == old(self).criteria.ceiling(),
            r is Ok,
            ({
                let c = spec_clamp(old(self).remaining, buffer@.len());
                r matches Ok(step) ==> {
                    &&& step.consumed == c
                    &&& (c == 0 ==> *final(self) == *old(self) && !step.more)
                    &&& (c > 0 ==> {
                        &&& final(self).criteria.seen() == old(self).criteria.seen()
                            + buffer@.subrange(0, c)
                        &&& final(self).remaining == old(self).remaining - c
                        &&& ({
                            let still = final(self).remaining > 0;
                            step.more <==> (!final(self).criteria.done_now() && still)
                        })
                    })
                }
            }),
    {
        let len_u64: u64 = buffer.len() as u64;
        let clamp: u64 = if self.remaining <= len_u64 {
            self.remaining
        } else {
            len_u64
        };
        if clamp == 0 {
            return Ok(FeedStep { consumed: 0, more: false });
        }
        let to_consume: usize = clamp as usize;
        let chunk: &[u8] = &buffer[0..to_consume];
        match self.criteria.process(chunk) {
            Ok(state) => {
                self.remaining = self.remaining - clamp;
                let more = match state {
                    Consuming::Working => self.remaining > 0,
                    Consuming::Done => false,
                };
                Ok(FeedStep { consumed: to_consume, more })
            },
            Err(e) => Err(e),
        }
    }

    /// Closes the driver: asks the classifier for its final decision, then
    /// resets it, so the processor always stands ready for the next file.
    pub fn finalize_file(&mut self) -> (r: Result<Selection, ProcError>)
        requires
            old(self).wf(),
        ensures
            final(self).wf(),
            final(self).min_size == old(self).min_size,
            final(self).block_size == old(self).block_size,
            final(self).check_limit == old(self).check_limit,
            final(self).ignored_exts == old(self).ignored_exts,
            final(self).remaining == old(self).remaining,
            final(self).criteria.seen() == Seq::<u8>::empty(),
            final(self).criteria.is_text_kind() == old(self).criteria.is_text_kind(),
            final(self).criteria.ceiling() == old(self).criteria.ceiling(),
            r == Ok::<Selection, ProcError>(old(self).criteria.decision()),
    {
        let decision = self.criteria.finalize();
        self.criteria.initialize();
        decision
    }

    /// Runs the bounded-read driver over a file's leading bytes that are
    /// already in memory: at most `block_size` of them are inspected,
    /// however long `data` is.
    pub fn is_candidate_file(&mut self, data: &[u8]) -> (r: Result<Selection, ProcError>)
        requires
            old(self).wf(),
        ensures
            final(self).wf(),
            final(self).min_size == old(self).min_size,
            final(self).block_size == old(self).block_size,
            final(self).check_limit == old(self).check_limit,
            final(self).ignored_exts == old(self).ignored_exts,
            final(self).criteria.is_text_kind() == old(self).criteria.is_text_kind(),
            final(self).criteria.ceiling() == old(self).criteria.ceiling(),
            r == Ok::<Selection, ProcError>(window_decision(
                old(self).criteria,
                spec_window(old(self).block_size, data@),
            )),
    {
        self.begin_file();
        proof {
            assert(spec_window(self.block_size, data@).len() == spec_clamp(
                self.remaining,
                data@.len(),
            ));
        }
        match self.feed(data) {
            Ok(_) => {},
            Err(e) => {
                return Err(e);
            },
        }
        proof {
            let w = spec_window(old(self).block_size, data@);
            assert(Seq::<u8>::empty() + data@.subrange(0, w.len() as int) =~= w);
        }
        self.finalize_file()
    }

    /// Classifies one directory entry whose relevant facts are in hand:
    /// whether it is a regular file, its size, its extension, and its
    /// leading bytes. Size filter, extension throttle, bounded-read
    /// driver, and outcome recording, in that order; entries the size
    /// filter or the throttle stops are never classified and leave the
    /// processor untouched.
    pub fn process(&mut self, is_file: bool, size: u64, ext: Option<&Vec<u8>>, data: &[u8]) -> (r:
        Result<Checked, ProcError>)
        requires
            old(self).wf(),
        ensures
            final(self).wf(),
            final(self).min_size == old(self).min_size,
            final(self).block_size == old(self).block_size,
            final(self).check_limit == old(self).check_limit,
            final(self).criteria.is_text_kind() == old(self).criteria.is_text_kind(),
            final(self).criteria.ceiling() == old(self).criteria.ceiling(),
            r is Ok,
            ({
                let pc = spec_pre_check(
                    old(self).min_size,
                    old(self).check_limit,
                    old(self).ignored_exts@,
                    is_file,
                    size,
                    opt_ext_view(ext),
                );
                &&& (pc != PreCheck::Classify ==> *final(self) == *old(self))
                &&& (pc == PreCheck::NotFile ==> r == Ok::<Checked, ProcError>(Checked::NotFile))
                &&& (pc == PreCheck::TooSmall ==> r == Ok::<Checked, ProcError>(Checked::TooSmall))
                &&& (pc == PreCheck::Throttled ==> r == Ok::<Checked, ProcError>(Checked::Ignored))
                &&& (pc == PreCheck::Classify ==> (r matches Ok(out) ==> recorded_outcome(
                    old(self).ignored_exts@,
                    old(self).check_limit,
                    opt_ext_view(ext),
                    size,
                    window_decision(old(self).criteria, spec_window(old(self).block_size, data@)),
                    final(self).ignored_exts@,
                    out,
                )))
            }),
    {
        match self.pre_check(is_file, size, ext) {
            PreCheck::NotFile => Ok(Checked::NotFile),
            PreCheck::TooSmall => Ok(Checked::TooSmall),
            PreCheck::Throttled => Ok(Checked::Ignored),
            PreCheck::Classify => {
                let candidate = match self.is_candidate_file(data) {
                    Ok(s) => s,
                    Err(e) => {
                        return Err(e);
                    },
                };
                Ok(self.update_ignored_count(ext, size, candidate))
            },
        }
    }
}


/// Classifying the same leading bytes twice under the same configuration
/// yields the same decision, under either criterion: the decision is a
/// function of the inspected window and the configuration alone.
pub proof fn lemma_classification_idempotent(p1: FileProcessor, p2: FileProcessor, data: Seq<u8>)
    requires
        p1.block_size == p2.block_size,
        p1.criteria.is_text_kind() == p2.criteria.is_text_kind(),
        p1.criteria.ceiling() == p2.criteria.ceiling(),
    ensures
        window_decision(p1.criteria, spec_window(p1.block_size, data)) == window_decision(
            p2.criteria,
            spec_window(p2.block_size, data),
        ),
{
}

/// An extension whose stored miss count has passed the limit
/// short-circuits: the pre-check stops every later file with that
/// extension before a single content byte is read.
pub proof fn lemma_throttled_extension_skipped(
    min_size: u64,
    limit: usize,
    entries: Seq<(Vec<u8>, usize)>,
    size: u64,
    key: Seq<u8>,
)
    requires
        ext_count(entries, key) matches Some(c) && c > limit,
        size >= min_size,
    ensures
        spec_pre_check(min_size, limit, entries, true, size, Some(key)) == PreCheck::Throttled,
{
}

/// Builds a processor from the configuration the command-line layer
/// validated: sizes and limit as given, and the chosen classifier, with
/// the ratio ceiling for the deflate criterion.
pub fn create_processor(
    min_size: u64,
    block_size: u64,
    check_limit: usize,
    criteria: CriteriaArg,
    compression_ratio: Ratio,
) -> (r: FileProcessor)
    requires
        compression_ratio.valid(),
    ensures
        r.wf(),
        r.min_size == min_size,
        r.block_size == block_size,
        r.check_limit == check_limit,
        r.ignored_exts@ == Seq::<(Vec<u8>, usize)>::empty(),
        r.criteria.is_text_kind() == (criteria == CriteriaArg::Text),
        r.criteria.seen() == Seq::<u8>::empty(),
        criteria == CriteriaArg::Deflate ==> r.criteria.ceiling() == compression_ratio,
{
    let mut processor = FileProcessor::new();
    processor.set_min_size(min_size);
    processor.set_block_size(block_size);
    processor.set_check_limit(check_limit);
    let classifier = match criteria {
        CriteriaArg::Text => Classifier::Text(TextFiles::new()),
        CriteriaArg::Deflate => Classifier::Deflate(DeflatableFiles::new(compression_ratio)),
    };
    processor.set_criteria(classifier);
    processor
}

} // verus!
