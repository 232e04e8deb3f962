//! Retained CPU copies of device frame tables.
//!
//! Every retained table remembers the exact words last published to its
//! device buffer, so a frame whose words did not change issues no queue write.
//! The outcome of each commit is reported as a [`FrameTablePublication`] and
//! accumulated into device-lifetime diagnostics.

use vstd::prelude::*;
use crate::error::LodWebGpuError;

verus! {

/// Bytes of the classifier-global dispatch uniform.
pub const DISPATCH_UNIFORM_BYTES: u64 = 272;
/// Bytes of one retained per-subject classifier row.
pub const SUBJECT_RECORD_BYTES: u64 = 160;
/// Words of the classifier-global dispatch uniform.
pub const DISPATCH_UNIFORM_WORDS: usize = 68;
/// Words of one retained per-subject classifier row.
pub const SUBJECT_RECORD_WORDS: usize = 40;

/// Result of committing one retained table for the current frame.
#[derive(Clone, Copy, Debug, PartialEq, Eq, Structural)]
pub enum FrameTablePublication {
    /// The table changed (or was never published): upload this many bytes.
    Upload { bytes: u64 },
    /// The device already holds the exact words: no queue write.
    Reuse,
}

/// The words of row `row` of a row-major table with `row_words` words per row.
pub open spec fn table_row(words: Seq<u32>, row: int, row_words: int) -> Seq<u32> {
    words.subrange(row * row_words, row * row_words + row_words)
}

/// `words` with row `row` replaced by `next`.
pub open spec fn with_row(words: Seq<u32>, row: int, row_words: int, next: Seq<u32>) -> Seq<u32> {
    words.subrange(0, row * row_words) + next + words.subrange(
        row * row_words + row_words,
        words.len() as int,
    )
}

/// Replacing one row leaves every other row of the table unchanged.
pub proof fn lemma_with_row_rows(words: Seq<u32>, row: int, row_words: int, next: Seq<u32>, j: int)
    requires
        row_words > 0,
        next.len() == row_words,
        0 <= row,
        0 <= j,
        row * row_words + row_words <= words.len(),
        j * row_words + row_words <= words.len(),
    ensures
        with_row(words, row, row_words, next).len() == words.len(),
        table_row(with_row(words, row, row_words, next), j, row_words) == if j == row {
            next
        } else {
            table_row(words, j, row_words)
        },
{
    let w = with_row(words, row, row_words, next);
    let a = row * row_words;
    let b = j * row_words;
    if j < row {
        assert(b + row_words <= a) by (nonlinear_arith)
            requires
                j < row,
                row_words > 0,
                a == row * row_words,
                b == j * row_words,
        ;
    } else if j > row {
        assert(a + row_words <= b) by (nonlinear_arith)
            requires
                j > row,
                row_words > 0,
                a == row * row_words,
                b == j * row_words,
        ;
    }
    assert(table_row(w, j, row_words) =~= if j == row {
        next
    } else {
        table_row(words, j, row_words)
    });
}

/// A row index below the row count addresses words inside the table.
pub proof fn lemma_row_in_bounds(len: int, row_words: int, j: int)
    requires
        row_words > 0,
        len % row_words == 0,
        0 <= j < len / row_words,
    ensures
        j * row_words + row_words <= len,
{
    assert(j * row_words + row_words <= len) by (nonlinear_arith)
        requires
            row_words > 0,
            len % row_words == 0,
            0 <= j < len / row_words,
    {
        assert(len == (len / row_words) * row_words);
        assert((j + 1) * row_words <= (len / row_words) * row_words);
    }
}

/// A retained table of fixed-width rows and the publication flag of its
/// device copy.
pub struct RetainedFrameTable {
    words: Vec<u32>,
    row_words: usize,
    byte_len: u64,
    published: bool,
}

impl RetainedFrameTable {
    /// Current retained words.
    pub closed spec fn words_view(&self) -> Seq<u32> {
        self.words@
    }

    /// Words per row.
    pub closed spec fn row_words_view(&self) -> nat {
        self.row_words as nat
    }

    /// Bytes uploaded when the table is published.
    pub closed spec fn byte_len_view(&self) -> u64 {
        self.byte_len
    }

    /// Whether the device copy holds the retained words.
    pub closed spec fn published_view(&self) -> bool {
        self.published
    }

    /// Number of rows.
    pub open spec fn row_count(&self) -> nat {
        self.words_view().len() / self.row_words_view()
    }

    /// Row `row` of the retained words.
    pub open spec fn row(&self, row: int) -> Seq<u32> {
        table_row(self.words_view(), row, self.row_words_view() as int)
    }

    /// Rows are nonempty and tile the word table exactly, and the upload size
    /// is the table's byte size.
    pub open spec fn wf(&self) -> bool {
        &&& self.row_words_view() > 0
        &&& self.words_view().len() % self.row_words_view() == 0
        &&& self.words_view().len() * 4 == self.byte_len_view()
    }

    /// A zeroed, unpublished table of `word_count` words in rows of
    /// `row_words`, uploaded as `byte_len` bytes.
    pub fn new(word_count: usize, row_words: usize, byte_len: u64) -> (table: Self)
        requires
            row_words > 0,
            word_count % row_words == 0,
            word_count * 4 == byte_len,
        ensures
            table.wf(),
            table.words_view() == Seq::new(word_count as nat, |i: int| 0u32),
            table.row_words_view() == row_words,
            table.byte_len_view() == byte_len,
            !table.published_view(),
    {
        let mut words: Vec<u32> = Vec::new();
        let mut i: usize = 0;
        while i < word_count
            invariant
                i <= word_count,
                words@ == Seq::new(i as nat, |k: int| 0u32),
            decreases word_count - i,
        {
            words.push(0);
            i = i + 1;
        }
        RetainedFrameTable { words, row_words, byte_len, published: false }
    }

    /// The retained words, in upload order.
    pub fn words(&self) -> (w: &[u32])
        ensures
            w@ == self.words_view(),
    {
        self.words.as_slice()
    }

    /// Whether the next commit must upload even if no row changes: true until
    /// the table has been published once (or after an invalidation).
    pub fn begin_update(&self) -> (must_upload: bool)
        ensures
            must_upload == !self.published_view(),
    {
        !self.published
    }

    /// Replace row `row` with `next`, reporting whether any word differed.
    pub fn replace_row(&mut self, row: usize, next: &[u32]) -> (changed: bool)
        requires
            old(self).wf(),
            next@.len() == old(self).row_words_view(),
            row * old(self).row_words_view() + old(self).row_words_view() <= old(
                self,
            ).words_view().len(),
        ensures
            final(self).wf(),
            changed == (old(self).row(row as int) != next@),
            final(self).words_view() == with_row(
                old(self).words_view(),
                row as int,
                old(self).row_words_view() as int,
                next@,
            ),
            final(self).row_words_view() == old(self).row_words_view(),
            final(self).byte_len_view() == old(self).byte_len_view(),
            final(self).published_view() == old(self).published_view(),
    {
        let row_words = self.row_words;
        let len = self.words.len();
        let start = row * row_words;
        let ghost old_self = *self;
        let ghost old_words = self.words@;
        let ghost rw = row_words as int;
        let ghost s = start as int;
        let mut differs = false;
        let mut i: usize = 0;
        while i < row_words
            invariant
                i <= row_words,
                row_words == next@.len(),
                start + row_words <= len,
                len == self.words@.len(),
                self.words@ == old_words,
                *self == old_self,
                s == start,
                differs == exists|k: int|
                    0 <= k < i && #[trigger] old_words[s + k] != next@[k],
            decreases row_words - i,
        {
            if self.words[start + i] != next[i] {
                differs = true;
            }
            i = i + 1;
        }
        proof {
            let old_row = table_row(old_words, row as int, rw);
            if differs {
                let k = choose|k: int| 0 <= k < rw && #[trigger] old_words[s + k] != next@[k];
                assert(old_row[k] != next@[k]);
            } else {
                assert(old_row =~= next@) by {
                    assert forall|k: int| 0 <= k < rw implies old_row[k] == next@[k] by {
                        assert(old_words[s + k] == next@[k]);
                    }
                }
            }
        }
        if differs {
            let mut j: usize = 0;
            while j < row_words
                invariant
                    j <= row_words,
                    row_words == next@.len(),
                    start + row_words <= len,
                len == self.words@.len(),
                    self.words@.len() == old_words.len(),
                    self.row_words == old_self.row_words,
                    self.byte_len == old_self.byte_len,
                    self.published == old_self.published,
                    s == start,
                    forall|k: int|
                        0 <= k < old_words.len() ==> #[trigger] self.words@[k] == if s <= k < s + j {
                            next@[k - s]
                        } else {
                            old_words[k]
                        },
                decreases row_words - j,
            {
                self.words.set(start + j, next[j]);
                j = j + 1;
            }
            proof {
                assert(self.words@ =~= with_row(old_words, row as int, rw, next@));
            }
        } else {
            proof {
                let old_row = table_row(old_words, row as int, rw);
                assert(old_words =~= with_row(old_words, row as int, rw, next@)) by {
                    assert(old_row =~= next@);
                }
            }
        }
        differs
    }

    /// Stage one complete frame: begin an update, replace every row, and
    /// commit. The device buffer must be written exactly when the table was
    /// unpublished or some row changed.
    pub fn stage_rows(&mut self, rows: &[Vec<u32>]) -> (publication: FrameTablePublication)
        requires
            old(self).wf(),
            rows@.len() == old(self).row_count(),
            forall|j: int|
                0 <= j < rows@.len() ==> (#[trigger] rows@[j])@.len() == old(
                    self,
                ).row_words_view(),
        ensures
            final(self).wf(),
            final(self).words_view().len() == old(self).words_view().len(),
            final(self).row_words_view() == old(self).row_words_view(),
            final(self).byte_len_view() == old(self).byte_len_view(),
            final(self).published_view(),
            forall|j: int| 0 <= j < rows@.len() ==> #[trigger] final(self).row(j) == rows@[j]@,
            publication == stage_outcome(*old(self), rows@.map_values(|r: Vec<u32>| r@)),
    {
        let ghost start = *self;
        let ghost rw = self.row_words as int;
        let mut changed = self.begin_update();
        let mut i: usize = 0;
        while i < rows.len()
            invariant
                self.wf(),
                i <= rows@.len(),
                rows@.len() == start.row_count(),
                rw == start.row_words_view(),
                forall|j: int| 0 <= j < rows@.len() ==> (#[trigger] rows@[j])@.len() == rw,
                self.words_view().len() == start.words_view().len(),
                self.row_words_view() == start.row_words_view(),
                self.byte_len_view() == start.byte_len_view(),
                self.published_view() == start.published_view(),
                forall|j: int| 0 <= j < i ==> #[trigger] self.row(j) == rows@[j]@,
                forall|j: int| i <= j < rows@.len() ==> #[trigger] self.row(j) == start.row(j),
                changed == (!start.published_view() || exists|j: int|
                    0 <= j < i && #[trigger] start.row(j) != rows@[j]@),
            decreases rows@.len() - i,
        {
            let ghost before = *self;
            proof {
                lemma_row_in_bounds(self.words_view().len() as int, rw, i as int);
            }
            let row_changed = self.replace_row(i, rows[i].as_slice());
            proof {
                assert forall|j: int| 0 <= j < rows@.len() implies #[trigger] self.row(j) == if j
                    == i {
                    rows@[j]@
                } else {
                    before.row(j)
                } by {
                    lemma_row_in_bounds(before.words_view().len() as int, rw, j);
                    lemma_with_row_rows(before.words_view(), i as int, rw, rows@[i as int]@, j);
                }
                assert(before.row(i as int) == start.row(i as int));
            }
            changed = changed || row_changed;
            i = i + 1;
        }
        let ghost staged = *self;
        let publication = self.commit(changed);
        proof {
            assert forall|j: int| 0 <= j < rows@.len() implies #[trigger] self.row(j) == rows@[j]@ by {
                assert(staged.row(j) == rows@[j]@);
            }
        }
        publication
    }

    /// Forget the device copy, forcing the next commit to upload.
    pub fn invalidate(&mut self)
        ensures
            final(self).words_view() == old(self).words_view(),
            final(self).row_words_view() == old(self).row_words_view(),
            final(self).byte_len_view() == old(self).byte_len_view(),
            !final(self).published_view(),
    {
        self.published = false;
    }

    /// Finish one update: the table is published afterwards, and the device
    /// buffer must be written exactly when `changed` holds.
    pub fn commit(&mut self, changed: bool) -> (publication: FrameTablePublication)
        ensures
            final(self).words_view() == old(self).words_view(),
            final(self).row_words_view() == old(self).row_words_view(),
            final(self).byte_len_view() == old(self).byte_len_view(),
            final(self).published_view(),
            publication == (if changed {
                FrameTablePublication::Upload { bytes: old(self).byte_len_view() }
            } else {
                FrameTablePublication::Reuse
            }),
    {
        self.published = true;
        if changed {
            FrameTablePublication::Upload { bytes: self.byte_len }
        } else {
            FrameTablePublication::Reuse
        }
    }
}


/// The publication of staging `rows` into `table`: an upload of the whole
/// table when it is unpublished or some row differs, a reuse otherwise.
pub open spec fn stage_outcome(table: RetainedFrameTable, rows: Seq<Seq<u32>>) -> FrameTablePublication {
    if !table.published_view() || exists|j: int|
        0 <= j < rows.len() && #[trigger] table.row(j) != rows[j] {
        FrameTablePublication::Upload { bytes: table.byte_len_view() }
    } else {
        FrameTablePublication::Reuse
    }
}

/// A table that was just staged with `rows` holds exactly those rows and is
/// published, so staging the same rows again reuses the device copy: a frame
/// whose words did not change issues no upload.
pub proof fn lemma_restaging_same_rows_reuses(table: RetainedFrameTable, rows: Seq<Seq<u32>>)
    requires
        table.published_view(),
        forall|j: int| 0 <= j < rows.len() ==> #[trigger] table.row(j) == rows[j],
    ensures
        stage_outcome(table, rows) == FrameTablePublication::Reuse,
{
}

/// An unpublished table (new, or invalidated) uploads all of its bytes on the
/// next stage, whatever rows are staged.
pub proof fn lemma_unpublished_table_uploads(table: RetainedFrameTable, rows: Seq<Seq<u32>>)
    requires
        !table.published_view(),
    ensures
        stage_outcome(table, rows) == (FrameTablePublication::Upload {
            bytes: table.byte_len_view(),
        }),
{
}

/// Changing any row of a staged table uploads the whole table.
pub proof fn lemma_changed_row_uploads(table: RetainedFrameTable, rows: Seq<Seq<u32>>, j: int)
    requires
        0 <= j < rows.len(),
        table.row(j) != rows[j],
    ensures
        stage_outcome(table, rows) == (FrameTablePublication::Upload {
            bytes: table.byte_len_view(),
        }),
{
}

} // verus!

verus! {

/// Device-lifetime queue traffic of retained frame tables.
#[derive(Clone, Copy, Debug, PartialEq, Eq, Structural)]
pub struct FrameTableMemoDiagnostics {
    pub uploads: u64,
    pub reuses: u64,
    pub upload_bytes: u64,
}

/// Device-lifetime queue traffic of classifier dispatch state.
#[derive(Clone, Copy, Debug, PartialEq, Eq, Structural)]
pub struct LodStateMemoDiagnostics {
    pub uploads: u64,
    pub reuses: u64,
    pub upload_bytes: u64,
}

/// Counters after recording one publication: an upload bumps the upload
/// count and byte total, a reuse bumps the reuse count. Counters wrap like
/// the device's atomic counters.
pub open spec fn recorded_counters(
    counters: (u64, u64, u64),
    publication: FrameTablePublication,
) -> (u64, u64, u64) {
    match publication {
        FrameTablePublication::Upload { bytes } => (
            counters.0.wrapping_add(1),
            counters.1,
            counters.2.wrapping_add(bytes),
        ),
        FrameTablePublication::Reuse => (counters.0, counters.1.wrapping_add(1), counters.2),
    }
}

impl Default for FrameTableMemoDiagnostics {
    fn default() -> (d: Self)
        ensures
            d == (FrameTableMemoDiagnostics { uploads: 0, reuses: 0, upload_bytes: 0 }),
    {
        FrameTableMemoDiagnostics { uploads: 0, reuses: 0, upload_bytes: 0 }
    }
}

impl Default for LodStateMemoDiagnostics {
    fn default() -> (d: Self)
        ensures
            d == (LodStateMemoDiagnostics { uploads: 0, reuses: 0, upload_bytes: 0 }),
    {
        LodStateMemoDiagnostics { uploads: 0, reuses: 0, upload_bytes: 0 }
    }
}

impl FrameTableMemoDiagnostics {
    /// Account for one frame-table commit.
    pub fn record(&mut self, publication: FrameTablePublication)
        ensures
            (final(self).uploads, final(self).reuses, final(self).upload_bytes)
                == recorded_counters(
                (old(self).uploads, old(self).reuses, old(self).upload_bytes),
                publication,
            ),
    {
        match publication {
            FrameTablePublication::Upload { bytes } => {
                self.uploads = self.uploads.wrapping_add(1);
                self.upload_bytes = self.upload_bytes.wrapping_add(bytes);
            },
            FrameTablePublication::Reuse => {
                self.reuses = self.reuses.wrapping_add(1);
            },
        }
    }
}

impl LodStateMemoDiagnostics {
    /// Account for one classifier-state commit.
    pub fn record(&mut self, publication: FrameTablePublication)
        ensures
            (final(self).uploads, final(self).reuses, final(self).upload_bytes)
                == recorded_counters(
                (old(self).uploads, old(self).reuses, old(self).upload_bytes),
                publication,
            ),
    {
        match publication {
            FrameTablePublication::Upload { bytes } => {
                self.uploads = self.uploads.wrapping_add(1);
                self.upload_bytes = self.upload_bytes.wrapping_add(bytes);
            },
            FrameTablePublication::Reuse => {
                self.reuses = self.reuses.wrapping_add(1);
            },
        }
    }
}

/// Retained classifier dispatch words: one global uniform and one row per
/// authored subject, each remembered with its device publication flag. New
/// subject rows are packed into a scratch table and swapped in on upload.
pub struct RetainedLodDispatchState {
    uniform_words: [u32; 68],
    subject_words: Vec<[u32; 40]>,
    subject_scratch: Vec<[u32; 40]>,
    uniform_published: bool,
    subjects_published: bool,
}

impl RetainedLodDispatchState {
    pub closed spec fn uniform_view(&self) -> Seq<u32> {
        self.uniform_words@
    }

    pub closed spec fn subjects_view(&self) -> Seq<[u32; 40]> {
        self.subject_words@
    }

    pub closed spec fn scratch_view(&self) -> Seq<[u32; 40]> {
        self.subject_scratch@
    }

    pub closed spec fn uniform_published_view(&self) -> bool {
        self.uniform_published
    }

    pub closed spec fn subjects_published_view(&self) -> bool {
        self.subjects_published
    }

    /// Both subject tables have an allocatable byte size.
    pub open spec fn wf(&self) -> bool {
        &&& self.uniform_view().len() == DISPATCH_UNIFORM_WORDS
        &&& self.subjects_view().len() * 160 <= usize::MAX
        &&& self.scratch_view().len() * 160 <= usize::MAX
    }

    /// Zeroed, unpublished state for `subject_rows` subject rows.
    pub fn new(subject_rows: usize) -> (state: Self)
        requires
            subject_rows * 160 <= usize::MAX,
        ensures
            state.wf(),
            state.uniform_view() == Seq::new(68, |i: int| 0u32),
            state.subjects_view().len() == subject_rows,
            state.scratch_view().len() == subject_rows,
            forall|i: int|
                0 <= i < subject_rows ==> (#[trigger] state.subjects_view()[i])@ == Seq::new(
                    40,
                    |k: int| 0u32,
                ),
            forall|i: int|
                0 <= i < subject_rows ==> (#[trigger] state.scratch_view()[i])@ == Seq::new(
                    40,
                    |k: int| 0u32,
                ),
            !state.uniform_published_view(),
            !state.subjects_published_view(),
    {
        let mut subject_words: Vec<[u32; 40]> = Vec::new();
        let mut subject_scratch: Vec<[u32; 40]> = Vec::new();
        let mut i: usize = 0;
        while i < subject_rows
            invariant
                i <= subject_rows,
                subject_words@.len() == i,
                subject_scratch@.len() == i,
                forall|k: int| 0 <= k < i ==> (#[trigger] subject_words@[k])@ == Seq::new(40, |j: int| 0u32),
                forall|k: int| 0 <= k < i ==> (#[trigger] subject_scratch@[k])@ == Seq::new(40, |j: int| 0u32),
            decreases subject_rows - i,
        {
            let zero = [0u32; 40];
            assert(zero@ =~= Seq::new(40, |j: int| 0u32));
            subject_words.push(zero);
            subject_scratch.push(zero);
            i = i + 1;
        }
        let state = RetainedLodDispatchState {
            uniform_words: [0u32; 68],
            subject_words,
            subject_scratch,
            uniform_published: false,
            subjects_published: false,
        };
        proof {
            assert(state.uniform_view() =~= Seq::new(68, |i: int| 0u32));
        }
        state
    }

    /// Word `word` of retained (published) subject row `row`.
    pub fn subject_word(&self, row: usize, word: usize) -> (w: u32)
        requires
            row < self.subjects_view().len(),
            word < 40,
        ensures
            w == self.subjects_view()[row as int][word as int],
    {
        self.subject_words[row][word]
    }

    /// The retained (published) subject rows, in upload order.
    pub fn subject_rows(&self) -> (rows: &[[u32; 40]])
        ensures
            rows@ == self.subjects_view(),
    {
        self.subject_words.as_slice()
    }

    /// The retained global uniform words.
    pub fn uniform_words(&self) -> (words: [u32; 68])
        ensures
            words@ == self.uniform_view(),
    {
        self.uniform_words
    }

    /// Word `word` of the retained global uniform.
    pub fn uniform_word(&self, word: usize) -> (w: u32)
        requires
            word < 68,
        ensures
            w == self.uniform_view()[word as int],
    {
        self.uniform_words[word]
    }

    /// Overwrite one word of the scratch subject table.
    pub fn set_subject_scratch_word(&mut self, row: usize, word: usize, value: u32)
        requires
            old(self).wf(),
            row < old(self).scratch_view().len(),
            word < 40,
        ensures
            final(self).wf(),
            final(self).scratch_view() == old(self).scratch_view().update(
                row as int,
                final(self).scratch_view()[row as int],
            ),
            final(self).scratch_view()[row as int]@ == old(self).scratch_view()[row as int]@.update(
                word as int,
                value,
            ),
            final(self).uniform_view() == old(self).uniform_view(),
            final(self).subjects_view() == old(self).subjects_view(),
            final(self).uniform_published_view() == old(self).uniform_published_view(),
            final(self).subjects_published_view() == old(self).subjects_published_view(),
    {
        let mut next = self.subject_scratch[row];
        next[word] = value;
        self.subject_scratch.set(row, next);
    }

    /// Replace the scratch subject table with freshly packed rows. The packed
    /// table must keep the model's immutable row count.
    pub fn load_subject_scratch(&mut self, rows: Vec<[u32; 40]>, subject_rows: usize) -> (r:
        Result<(), LodWebGpuError>)
        requires
            old(self).wf(),
            rows@.len() * 160 <= usize::MAX,
        ensures
            final(self).wf(),
            final(self).scratch_view() == rows@,
            final(self).uniform_view() == old(self).uniform_view(),
            final(self).subjects_view() == old(self).subjects_view(),
            final(self).uniform_published_view() == old(self).uniform_published_view(),
            final(self).subjects_published_view() == old(self).subjects_published_view(),
            r is Ok <==> rows@.len() == subject_rows,
            r matches Err(e) ==> e is Payload,
    {
        let len = rows.len();
        self.subject_scratch = rows;
        if len != subject_rows {
            return Err(LodWebGpuError::payload("subject table changed immutable shape"));
        }
        Ok(())
    }

    /// Commit the global dispatch uniform: reuse only when it was published
    /// before with exactly these words.
    pub fn commit_uniform(&mut self, words: [u32; 68]) -> (publication: FrameTablePublication)
        requires
            old(self).wf(),
        ensures
            final(self).wf(),
            final(self).uniform_view() == words@,
            final(self).uniform_published_view(),
            final(self).subjects_view() == old(self).subjects_view(),
            final(self).scratch_view() == old(self).scratch_view(),
            final(self).subjects_published_view() == old(self).subjects_published_view(),
            publication == (if old(self).uniform_published_view() && old(self).uniform_view()
                == words@ {
                FrameTablePublication::Reuse
            } else {
                FrameTablePublication::Upload { bytes: DISPATCH_UNIFORM_BYTES }
            }),
    {
        let mut same = true;
        let mut i: usize = 0;
        while i < 68
            invariant
                i <= 68,
                self.uniform_words@.len() == 68,
                words@.len() == 68,
                same == forall|k: int| 0 <= k < i ==> self.uniform_words@[k] == words@[k],
            decreases 68 - i,
        {
            if self.uniform_words[i] != words[i] {
                same = false;
            }
            i = i + 1;
        }
        proof {
            if same {
                assert(self.uniform_words@ =~= words@);
            }
        }
        if self.uniform_published && same {
            FrameTablePublication::Reuse
        } else {
            self.uniform_words = words;
            self.uniform_published = true;
            FrameTablePublication::Upload { bytes: DISPATCH_UNIFORM_BYTES }
        }
    }

    /// Commit the packed subject rows: reuse only when they were published
    /// before and the scratch table equals them; otherwise the scratch table
    /// becomes the published table (the previous rows become scratch).
    pub fn commit_subject_scratch(&mut self) -> (publication: FrameTablePublication)
        requires
            old(self).wf(),
        ensures
            final(self).wf(),
            final(self).subjects_published_view(),
            final(self).uniform_view() == old(self).uniform_view(),
            final(self).uniform_published_view() == old(self).uniform_published_view(),
            if old(self).subjects_published_view() && old(self).subjects_view() == old(
                self,
            ).scratch_view() {
                &&& publication == FrameTablePublication::Reuse
                &&& final(self).subjects_view() == old(self).subjects_view()
                &&& final(self).scratch_view() == old(self).scratch_view()
            } else {
                &&& publication == FrameTablePublication::Upload {
                    bytes: (old(self).scratch_view().len() * 160) as u64,
                }
                &&& final(self).subjects_view() == old(self).scratch_view()
                &&& final(self).scratch_view() == old(self).subjects_view()
            },
    {
        let same = rows_equal(&self.subject_words, &self.subject_scratch);
        if self.subjects_published && same {
            FrameTablePublication::Reuse
        } else {
            std::mem::swap(&mut self.subject_words, &mut self.subject_scratch);
            self.subjects_published = true;
            let rows = self.subject_words.len();
            FrameTablePublication::Upload { bytes: rows as u64 * SUBJECT_RECORD_BYTES }
        }
    }

    /// Stage one classification: load the freshly packed subject rows, then
    /// commit the global uniform and the subject table, recording both
    /// outcomes. A subject table of the wrong shape is rejected before either
    /// commit.
    pub fn stage_classification(
        &mut self,
        uniform_words: [u32; 68],
        subject_rows: Vec<[u32; 40]>,
        expected_rows: usize,
        diagnostics: &mut LodStateMemoDiagnostics,
    ) -> (r: Result<(FrameTablePublication, FrameTablePublication), LodWebGpuError>)
        requires
            old(self).wf(),
            subject_rows@.len() * 160 <= usize::MAX,
        ensures
            final(self).wf(),
            r is Ok <==> subject_rows@.len() == expected_rows,
            r matches Err(e) ==> {
                &&& e is Payload
                &&& *final(diagnostics) == *old(diagnostics)
                &&& final(self).uniform_view() == old(self).uniform_view()
                &&& final(self).subjects_view() == old(self).subjects_view()
                &&& final(self).uniform_published_view() == old(self).uniform_published_view()
                &&& final(self).subjects_published_view() == old(
                    self,
                ).subjects_published_view()
            },
            r matches Ok((uniform, subjects)) ==> {
                &&& (uniform, subjects) == classification_outcome(
                    *old(self),
                    uniform_words@,
                    subject_rows@,
                )
                &&& final(self).uniform_view() == uniform_words@
                &&& final(self).subjects_view() == subject_rows@
                &&& final(self).uniform_published_view()
                &&& final(self).subjects_published_view()
                &&& (final(diagnostics).uploads, final(diagnostics).reuses, final(diagnostics).upload_bytes)
                    == recorded_counters(
                    recorded_counters(
                        (old(diagnostics).uploads, old(diagnostics).reuses, old(diagnostics).upload_bytes),
                        uniform,
                    ),
                    subjects,
                )
            },
    {
        self.load_subject_scratch(subject_rows, expected_rows)?;
        let uniform = self.commit_uniform(uniform_words);
        let subjects = self.commit_subject_scratch();
        diagnostics.record(uniform);
        diagnostics.record(subjects);
        Ok((uniform, subjects))
    }
}

/// The publications of staging one classification: the global uniform and
/// the subject table are each reused exactly when they were published before
/// with the same words, independently of each other.
pub open spec fn classification_outcome(
    state: RetainedLodDispatchState,
    uniform_words: Seq<u32>,
    subject_rows: Seq<[u32; 40]>,
) -> (FrameTablePublication, FrameTablePublication) {
    (
        if state.uniform_published_view() && state.uniform_view() == uniform_words {
            FrameTablePublication::Reuse
        } else {
            FrameTablePublication::Upload { bytes: DISPATCH_UNIFORM_BYTES }
        },
        if state.subjects_published_view() && state.subjects_view() == subject_rows {
            FrameTablePublication::Reuse
        } else {
            FrameTablePublication::Upload { bytes: (subject_rows.len() * 160) as u64 }
        },
    )
}

/// After a classification is staged, the state holds its uniform and subject
/// words and both are published, so staging the same classification again
/// uploads nothing; changing only the uniform (or only the subjects) uploads
/// only that half.
pub proof fn lemma_restaging_classification(
    state: RetainedLodDispatchState,
    uniform_words: Seq<u32>,
    subject_rows: Seq<[u32; 40]>,
    next_uniform: Seq<u32>,
    next_rows: Seq<[u32; 40]>,
)
    requires
        state.uniform_published_view(),
        state.subjects_published_view(),
        state.uniform_view() == uniform_words,
        state.subjects_view() == subject_rows,
    ensures
        classification_outcome(state, uniform_words, subject_rows) == (
            FrameTablePublication::Reuse,
            FrameTablePublication::Reuse,
        ),
        next_uniform != uniform_words ==> classification_outcome(state, next_uniform, subject_rows)
            == (
            FrameTablePublication::Upload { bytes: DISPATCH_UNIFORM_BYTES },
            FrameTablePublication::Reuse,
        ),
        next_rows != subject_rows ==> classification_outcome(state, uniform_words, next_rows) == (
            FrameTablePublication::Reuse,
            FrameTablePublication::Upload { bytes: (next_rows.len() * 160) as u64 },
        ),
{
}

/// Whether two subject tables hold the same rows.
fn rows_equal(a: &Vec<[u32; 40]>, b: &Vec<[u32; 40]>) -> (same: bool)
    ensures
        same == (a@ == b@),
{
    if a.len() != b.len() {
        return false;
    }
    let mut i: usize = 0;
    while i < a.len()
        invariant
            i <= a@.len(),
            a@.len() == b@.len(),
            forall|k: int| 0 <= k < i ==> a@[k] == b@[k],
        decreases a@.len() - i,
    {
        let ra = a[i];
        let rb = b[i];
        let mut j: usize = 0;
        while j < 40
            invariant
                j <= 40,
                i < a@.len(),
                a@.len() == b@.len(),
                ra == a@[i as int],
                rb == b@[i as int],
                forall|k: int| 0 <= k < i ==> a@[k] == b@[k],
                ra@.len() == 40,
                rb@.len() == 40,
                forall|k: int| 0 <= k < j ==> ra@[k] == rb@[k],
            decreases 40 - j,
        {
            if ra[j] != rb[j] {
                assert(a@[i as int]@[j as int] != b@[i as int]@[j as int]);
                assert(a@[i as int] != b@[i as int]);
                return false;
            }
            j = j + 1;
        }
        assert(ra@ =~= rb@);
        i = i + 1;
    }
    assert(a@ =~= b@);
    true
}

/// An identical repeat of a staged classification records two reuses: the
/// state just staged with these words publishes reuse for both halves, and
/// the memo counters gain exactly two reuses (modulo 2^64, as the wrapping
/// device counters count), no upload and no bytes.
pub proof fn lemma_repeated_classification_records_two_reuses(
    state: RetainedLodDispatchState,
    uniform_words: Seq<u32>,
    subject_rows: Seq<[u32; 40]>,
    counters: (u64, u64, u64),
)
    requires
        state.uniform_published_view(),
        state.subjects_published_view(),
        state.uniform_view() == uniform_words,
        state.subjects_view() == subject_rows,
    ensures
        classification_outcome(state, uniform_words, subject_rows) == (
            FrameTablePublication::Reuse,
            FrameTablePublication::Reuse,
        ),
        recorded_counters(
            recorded_counters(counters, FrameTablePublication::Reuse),
            FrameTablePublication::Reuse,
        ).0 == counters.0,
        recorded_counters(
            recorded_counters(counters, FrameTablePublication::Reuse),
            FrameTablePublication::Reuse,
        ).1 as int == (counters.1 + 2) % 0x1_0000_0000_0000_0000,
        recorded_counters(
            recorded_counters(counters, FrameTablePublication::Reuse),
            FrameTablePublication::Reuse,
        ).2 == counters.2,
{
}

} // verus!
