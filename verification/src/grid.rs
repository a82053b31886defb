//! The aligned data model: sequence rows, per-column annotations,
//! per-sequence and per-residue annotations, and the editing operations
//! that keep all of them column-synchronized.

use vstd::prelude::*;
use vstd::string::*;

use crate::chars::char_in;
use crate::chars::str_eq;
use crate::chars::str_to_chars;

verus! {

// ------------------------------------------------------------------
// Mathematical models
// ------------------------------------------------------------------

/// Model of a [`Sequence`]: its identifier and row of symbols.
#[verifier::ext_equal]
pub ghost struct SequenceModel {
    pub id: Seq<char>,
    pub data: Seq<char>,
}

/// Model of a [`FileAnnotation`].
#[verifier::ext_equal]
pub ghost struct FileAnnotationModel {
    pub tag: Seq<char>,
    pub value: Seq<char>,
}

/// Model of a [`SequenceAnnotation`].
#[verifier::ext_equal]
pub ghost struct SequenceAnnotationModel {
    pub tag: Seq<char>,
    pub value: Seq<char>,
}

/// Model of a [`ColumnAnnotation`].
#[verifier::ext_equal]
pub ghost struct ColumnAnnotationModel {
    pub tag: Seq<char>,
    pub data: Seq<char>,
}

/// Model of a [`ResidueAnnotation`].
#[verifier::ext_equal]
pub ghost struct ResidueAnnotationModel {
    pub tag: Seq<char>,
    pub data: Seq<char>,
}

/// Model of a [`SequenceAnnotationGroup`].
#[verifier::ext_equal]
pub ghost struct SequenceAnnotationGroupModel {
    pub id: Seq<char>,
    pub entries: Seq<SequenceAnnotationModel>,
}

/// Model of a [`ResidueAnnotationGroup`].
#[verifier::ext_equal]
pub ghost struct ResidueAnnotationGroupModel {
    pub id: Seq<char>,
    pub rows: Seq<ResidueAnnotationModel>,
}

/// Model of an [`Alignment`]: all of its parallel data series.
#[verifier::ext_equal]
pub ghost struct AlignmentModel {
    pub file_annotations: Seq<FileAnnotationModel>,
    pub sequences: Seq<SequenceModel>,
    pub sequence_annotations: Seq<SequenceAnnotationGroupModel>,
    pub column_annotations: Seq<ColumnAnnotationModel>,
    pub residue_annotations: Seq<ResidueAnnotationGroupModel>,
}

/// One aligned row of symbols, identified by name.
pub struct Sequence {
    /// Sequence identifier (may include coordinates like "id/start-end").
    pub id: String,
    /// Sequence data (with gaps), one symbol per column.
    pub data: Vec<char>,
}

impl View for Sequence {
    type V = SequenceModel;

    open spec fn view(&self) -> SequenceModel {
        SequenceModel { id: self.id@, data: self.data@ }
    }
}

// ------------------------------------------------------------------
// Row-local search and splice, specified
// ------------------------------------------------------------------

/// Index of the nearest gap symbol strictly left of `col`, or -1 if none.
pub open spec fn gap_left_of(data: Seq<char>, gaps: Seq<char>, col: int) -> int
    decreases col,
{
    if col <= 0 {
        -1
    } else if gaps.contains(data[col - 1]) {
        col - 1
    } else {
        gap_left_of(data, gaps, col - 1)
    }
}

/// Index of the nearest gap symbol strictly right of `col`, or -1 if none.
pub open spec fn gap_right_of(data: Seq<char>, gaps: Seq<char>, col: int) -> int
    decreases data.len() - col,
{
    if col + 1 >= data.len() || col < 0 {
        -1
    } else if gaps.contains(data[col + 1]) {
        col + 1
    } else {
        gap_right_of(data, gaps, col + 1)
    }
}

/// What `gap_left_of` finds: the greatest gap index below `col`, if any.
pub proof fn lemma_gap_left_of(data: Seq<char>, gaps: Seq<char>, col: int)
    requires
        0 <= col <= data.len(),
    ensures
        gap_left_of(data, gaps, col) == -1 ==> forall|k: int|
            0 <= k < col ==> !gaps.contains(#[trigger] data[k]),
        gap_left_of(data, gaps, col) >= 0 ==> {
            let g = gap_left_of(data, gaps, col);
            &&& 0 <= g < col
            &&& gaps.contains(data[g])
            &&& forall|k: int| g < k < col ==> !gaps.contains(#[trigger] data[k])
        },
    decreases col,
{
    if col > 0 && !gaps.contains(data[col - 1]) {
        lemma_gap_left_of(data, gaps, col - 1);
    }
}

/// What `gap_right_of` finds: the least gap index above `col`, if any.
pub proof fn lemma_gap_right_of(data: Seq<char>, gaps: Seq<char>, col: int)
    requires
        0 <= col,
    ensures
        gap_right_of(data, gaps, col) == -1 ==> forall|k: int|
            col < k < data.len() ==> !gaps.contains(#[trigger] data[k]),
        gap_right_of(data, gaps, col) >= 0 ==> {
            let g = gap_right_of(data, gaps, col);
            &&& col < g < data.len()
            &&& gaps.contains(data[g])
            &&& forall|k: int| col < k < g ==> !gaps.contains(#[trigger] data[k])
        },
    decreases data.len() - col,
{
    if col + 1 < data.len() && !gaps.contains(data[col + 1]) {
        lemma_gap_right_of(data, gaps, col + 1);
    }
}

/// `gap_right_of` is determined by its witness: if the nearest gap above
/// `col` is known to sit at `j`, the search finds exactly `j`.
pub proof fn lemma_gap_right_of_exact(data: Seq<char>, gaps: Seq<char>, col: int, j: int)
    requires
        0 <= col < j < data.len(),
        gaps.contains(data[j]),
        forall|k: int| col < k < j ==> !gaps.contains(#[trigger] data[k]),
    ensures
        gap_right_of(data, gaps, col) == j,
    decreases j - col,
{
    if col + 1 < j {
        lemma_gap_right_of_exact(data, gaps, col + 1, j);
    }
}

/// A row with one symbol inserted at `col`; rows shorter than `col` are
/// left alone (out-of-range edits are no-ops, never fatal).
pub open spec fn col_inserted(data: Seq<char>, col: int, c: char) -> Seq<char> {
    if 0 <= col <= data.len() {
        data.insert(col, c)
    } else {
        data
    }
}

/// A row with the symbol at `col` removed; rows without that column are
/// left alone.
pub open spec fn col_removed(data: Seq<char>, col: int) -> Seq<char> {
    if 0 <= col < data.len() {
        data.remove(col)
    } else {
        data
    }
}

/// A left shift applies at `col` when the column exists and a gap lies
/// strictly left of it.
pub open spec fn can_shift_left(data: Seq<char>, gaps: Seq<char>, col: int) -> bool {
    &&& 0 <= col < data.len()
    &&& gap_left_of(data, gaps, col) >= 0
}

/// Result of a left shift: the nearest gap left of `col` is consumed and a
/// fresh gap symbol appears at `col`, moving the run of symbols in between
/// one position left.
pub open spec fn row_shifted_left(data: Seq<char>, gaps: Seq<char>, col: int) -> Seq<char> {
    data.remove(gap_left_of(data, gaps, col)).insert(col, gaps[0])
}

/// A right shift applies at `col` when a gap lies strictly right of it.
pub open spec fn can_shift_right(data: Seq<char>, gaps: Seq<char>, col: int) -> bool {
    &&& 0 <= col
    &&& gap_right_of(data, gaps, col) >= 0
}

/// Result of a right shift: the nearest gap right of `col` is consumed and
/// a fresh gap symbol appears at `col`.
pub open spec fn row_shifted_right(data: Seq<char>, gaps: Seq<char>, col: int) -> Seq<char> {
    data.remove(gap_right_of(data, gaps, col)).insert(col, gaps[0])
}

// ------------------------------------------------------------------
// Sequence operations
// ------------------------------------------------------------------

impl Sequence {
    /// Create a new sequence from an identifier and its row of symbols.
    pub fn new(id: &str, data: &str) -> (r: Self)
        ensures
            r.id@ == id@,
            r.data@ == data@,
    {
        Sequence { id: String::from_str(id), data: str_to_chars(data) }
    }

    /// Insert a gap symbol at `pos`; positions beyond the row are ignored.
    pub fn insert_gap(&mut self, pos: usize, gap_char: char)
        ensures
            final(self).id == old(self).id,
            final(self).data@ == col_inserted(old(self).data@, pos as int, gap_char),
    {
        if pos <= self.data.len() {
            self.data.insert(pos, gap_char);
        }
    }

    /// Delete the symbol at `pos` if it is a gap; reports whether it did.
    pub fn delete_gap(&mut self, pos: usize, gap_chars: &Vec<char>) -> (r: bool)
        ensures
            r == (pos < old(self).data@.len() && gap_chars@.contains(old(self).data@[pos as int])),
            r ==> final(self).data@ == old(self).data@.remove(pos as int),
            !r ==> final(self).data@ == old(self).data@,
            final(self).id == old(self).id,
    {
        if pos < self.data.len() {
            let c = self.data[pos];
            if char_in(gap_chars, c) {
                self.data.remove(pos);
                return true;
            }
        }
        false
    }

    /// Shift the row left at `col`: consume the nearest gap left of `col`
    /// and open a fresh gap at `col`.  Reports false, without mutating,
    /// when no gap exists to the left (or `col` is out of range).
    pub fn shift_left(&mut self, col: usize, gap_chars: &Vec<char>) -> (r: bool)
        ensures
            r == can_shift_left(old(self).data@, gap_chars@, col as int),
            r ==> final(self).data@ == row_shifted_left(old(self).data@, gap_chars@, col as int),
            !r ==> final(self).data@ == old(self).data@,
            final(self).id == old(self).id,
    {
        shift_chars_left(&mut self.data, col, gap_chars)
    }

    /// Shift the row right at `col`: consume the nearest gap right of `col`
    /// and open a fresh gap at `col`.  Reports false, without mutating,
    /// when no gap exists to the right.
    pub fn shift_right(&mut self, col: usize, gap_chars: &Vec<char>) -> (r: bool)
        ensures
            r == can_shift_right(old(self).data@, gap_chars@, col as int),
            r ==> final(self).data@ == row_shifted_right(old(self).data@, gap_chars@, col as int),
            !r ==> final(self).data@ == old(self).data@,
            final(self).id == old(self).id,
    {
        shift_chars_right(&mut self.data, col, gap_chars)
    }
}

/// Shift a row of symbols left at `col` (see [`Sequence::shift_left`]).
pub fn shift_chars_left(data: &mut Vec<char>, col: usize, gap_chars: &Vec<char>) -> (r: bool)
    ensures
        r == can_shift_left(old(data)@, gap_chars@, col as int),
        r ==> final(data)@ == row_shifted_left(old(data)@, gap_chars@, col as int),
        !r ==> final(data)@ == old(data)@,
{
    if col >= data.len() {
        return false;
    }
    let mut gap_pos: Option<usize> = None;
    let mut i: usize = col;
    while i > 0 && gap_pos.is_none()
        invariant
            i <= col < data@.len(),
            gap_pos matches None ==> gap_left_of(data@, gap_chars@, col as int) == gap_left_of(
                data@,
                gap_chars@,
                i as int,
            ),
            gap_pos matches Some(g) ==> g == gap_left_of(data@, gap_chars@, col as int) && g < col,
        decreases i,
    {
        i = i - 1;
        if char_in(gap_chars, data[i]) {
            gap_pos = Some(i);
        }
    }
    match gap_pos {
        Some(g) => {
            proof {
                lemma_gap_left_of(data@, gap_chars@, col as int);
            }
            let gap0 = gap_chars[0];
            data.remove(g);
            data.insert(col, gap0);
            true
        },
        None => false,
    }
}

/// Shift a row of symbols right at `col` (see [`Sequence::shift_right`]).
pub fn shift_chars_right(data: &mut Vec<char>, col: usize, gap_chars: &Vec<char>) -> (r: bool)
    ensures
        r == can_shift_right(old(data)@, gap_chars@, col as int),
        r ==> final(data)@ == row_shifted_right(old(data)@, gap_chars@, col as int),
        !r ==> final(data)@ == old(data)@,
{
    if col >= data.len() {
        return false;
    }
    let n = data.len();
        let mut gap_pos: Option<usize> = None;
    let mut i: usize = col;
    while i + 1 < n && gap_pos.is_none()
        invariant
            n == data@.len(),
            col <= i < n,
            gap_pos matches None ==> gap_right_of(data@, gap_chars@, col as int) == gap_right_of(
                data@,
                gap_chars@,
                i as int,
            ),
            gap_pos matches Some(g) ==> g == gap_right_of(data@, gap_chars@, col as int) && col < g
                < data@.len(),
        decreases data@.len() - i,
    {
        i = i + 1;
        if char_in(gap_chars, data[i]) {
            gap_pos = Some(i);
        }
    }
    match gap_pos {
        Some(g) => {
            proof {
                lemma_gap_right_of(data@, gap_chars@, col as int);
            }
            let gap0 = gap_chars[0];
            data.remove(g);
            data.insert(col, gap0);
            true
        },
        None => false,
    }
}

impl Clone for Sequence {
    /// A deep copy with the same identifier and symbols.
    fn clone(&self) -> (r: Self)
        ensures
            r@ == self@,
    {
        let data = self.data.clone();
        proof {
            assert(data@ =~= self.data@);
        }
        Sequence { id: self.id.clone(), data }
    }
}

// ------------------------------------------------------------------
// Annotations
// ------------------------------------------------------------------

/// File-level annotation: a tag and its free-form value.
pub struct FileAnnotation {
    pub tag: String,
    pub value: String,
}

/// Per-sequence annotation: a tag and its free-form value.
pub struct SequenceAnnotation {
    pub tag: String,
    pub value: String,
}

/// Per-column annotation: a tag and one symbol per alignment column.
pub struct ColumnAnnotation {
    pub tag: String,
    pub data: Vec<char>,
}

/// Per-residue annotation: a tag and one symbol per column of the owning
/// sequence.
pub struct ResidueAnnotation {
    pub tag: String,
    pub data: Vec<char>,
}

/// All per-sequence annotations owned by the sequence with identifier `id`.
pub struct SequenceAnnotationGroup {
    pub id: String,
    pub entries: Vec<SequenceAnnotation>,
}

/// All per-residue annotation rows owned by the sequence with identifier
/// `id`.
pub struct ResidueAnnotationGroup {
    pub id: String,
    pub rows: Vec<ResidueAnnotation>,
}

impl View for FileAnnotation {
    type V = FileAnnotationModel;

    open spec fn view(&self) -> FileAnnotationModel {
        FileAnnotationModel { tag: self.tag@, value: self.value@ }
    }
}

impl View for SequenceAnnotation {
    type V = SequenceAnnotationModel;

    open spec fn view(&self) -> SequenceAnnotationModel {
        SequenceAnnotationModel { tag: self.tag@, value: self.value@ }
    }
}

impl View for ColumnAnnotation {
    type V = ColumnAnnotationModel;

    open spec fn view(&self) -> ColumnAnnotationModel {
        ColumnAnnotationModel { tag: self.tag@, data: self.data@ }
    }
}

impl View for ResidueAnnotation {
    type V = ResidueAnnotationModel;

    open spec fn view(&self) -> ResidueAnnotationModel {
        ResidueAnnotationModel { tag: self.tag@, data: self.data@ }
    }
}

impl View for SequenceAnnotationGroup {
    type V = SequenceAnnotationGroupModel;

    open spec fn view(&self) -> SequenceAnnotationGroupModel {
        SequenceAnnotationGroupModel {
            id: self.id@,
            entries: self.entries@.map_values(|a: SequenceAnnotation| a@),
        }
    }
}

impl View for ResidueAnnotationGroup {
    type V = ResidueAnnotationGroupModel;

    open spec fn view(&self) -> ResidueAnnotationGroupModel {
        ResidueAnnotationGroupModel {
            id: self.id@,
            rows: self.rows@.map_values(|a: ResidueAnnotation| a@),
        }
    }
}

impl Clone for FileAnnotation {
    /// A deep copy with the same tag and value.
    fn clone(&self) -> (r: Self)
        ensures
            r@ == self@,
    {
        FileAnnotation { tag: self.tag.clone(), value: self.value.clone() }
    }
}

impl Clone for SequenceAnnotation {
    /// A deep copy with the same tag and value.
    fn clone(&self) -> (r: Self)
        ensures
            r@ == self@,
    {
        SequenceAnnotation { tag: self.tag.clone(), value: self.value.clone() }
    }
}

impl Clone for ColumnAnnotation {
    /// A deep copy with the same tag and symbols.
    fn clone(&self) -> (r: Self)
        ensures
            r@ == self@,
    {
        let data = self.data.clone();
        proof {
            assert(data@ =~= self.data@);
        }
        ColumnAnnotation { tag: self.tag.clone(), data }
    }
}

impl Clone for ResidueAnnotation {
    /// A deep copy with the same tag and symbols.
    fn clone(&self) -> (r: Self)
        ensures
            r@ == self@,
    {
        let data = self.data.clone();
        proof {
            assert(data@ =~= self.data@);
        }
        ResidueAnnotation { tag: self.tag.clone(), data }
    }
}

impl Clone for SequenceAnnotationGroup {
    /// A deep copy of the group and everything in it.
    fn clone(&self) -> (r: Self)
        ensures
            r@ == self@,
    {
        let mut entries: Vec<SequenceAnnotation> = Vec::new();
        let mut i: usize = 0;
        while i < self.entries.len()
            invariant
                i <= self.entries@.len(),
                entries@.len() == i as int,
                forall|k: int| 0 <= k < i ==> (#[trigger] entries@[k])@ == self.entries@[k]@,
            decreases self.entries@.len() - i,
        {
            entries.push(self.entries[i].clone());
            i += 1;
        }
        proof {
            assert(entries@.map_values(|a: SequenceAnnotation| a@) =~= self.entries@.map_values(
                |a: SequenceAnnotation| a@,
            ));
        }
        SequenceAnnotationGroup { id: self.id.clone(), entries }
    }
}

impl Clone for ResidueAnnotationGroup {
    /// A deep copy of the group and everything in it.
    fn clone(&self) -> (r: Self)
        ensures
            r@ == self@,
    {
        let mut rows: Vec<ResidueAnnotation> = Vec::new();
        let mut i: usize = 0;
        while i < self.rows.len()
            invariant
                i <= self.rows@.len(),
                rows@.len() == i as int,
                forall|k: int| 0 <= k < i ==> (#[trigger] rows@[k])@ == self.rows@[k]@,
            decreases self.rows@.len() - i,
        {
            rows.push(self.rows[i].clone());
            i += 1;
        }
        proof {
            assert(rows@.map_values(|a: ResidueAnnotation| a@) =~= self.rows@.map_values(
                |a: ResidueAnnotation| a@,
            ));
        }
        ResidueAnnotationGroup { id: self.id.clone(), rows }
    }
}

// ------------------------------------------------------------------
// The alignment and its model
// ------------------------------------------------------------------

/// An alignment: sequences plus all annotation series, kept
/// column-synchronized by the operations below.
pub struct Alignment {
    /// File-level annotations.
    pub file_annotations: Vec<FileAnnotation>,
    /// Sequences in the alignment.
    pub sequences: Vec<Sequence>,
    /// Per-sequence annotations, grouped by owning sequence identifier.
    pub sequence_annotations: Vec<SequenceAnnotationGroup>,
    /// Per-column annotations.
    pub column_annotations: Vec<ColumnAnnotation>,
    /// Per-residue annotations, grouped by owning sequence identifier.
    pub residue_annotations: Vec<ResidueAnnotationGroup>,
}

impl View for Alignment {
    type V = AlignmentModel;

    open spec fn view(&self) -> AlignmentModel {
        AlignmentModel {
            file_annotations: self.file_annotations@.map_values(|a: FileAnnotation| a@),
            sequences: self.sequences@.map_values(|s: Sequence| s@),
            sequence_annotations: self.sequence_annotations@.map_values(
                |g: SequenceAnnotationGroup| g@,
            ),
            column_annotations: self.column_annotations@.map_values(|a: ColumnAnnotation| a@),
            residue_annotations: self.residue_annotations@.map_values(
                |g: ResidueAnnotationGroup| g@,
            ),
        }
    }
}

/// An alignment with every data row transformed by `f` and everything else
/// unchanged.  Both global column operations are instances of this shape.
pub open spec fn rows_mapped(al: AlignmentModel, f: spec_fn(Seq<char>) -> Seq<char>) -> AlignmentModel {
    AlignmentModel {
        file_annotations: al.file_annotations,
        sequence_annotations: al.sequence_annotations,
        sequences: al.sequences.map_values(
            |s: SequenceModel| SequenceModel { id: s.id, data: f(s.data) },
        ),
        column_annotations: al.column_annotations.map_values(
            |a: ColumnAnnotationModel| ColumnAnnotationModel { tag: a.tag, data: f(a.data) },
        ),
        residue_annotations: al.residue_annotations.map_values(
            |g: ResidueAnnotationGroupModel| ResidueAnnotationGroupModel {
                id: g.id,
                rows: g.rows.map_values(
                    |r: ResidueAnnotationModel| ResidueAnnotationModel {
                        tag: r.tag,
                        data: f(r.data),
                    },
                ),
            },
        ),
    }
}

impl AlignmentModel {
    /// The alignment width: the length of the first sequence row, or 0 when
    /// there are no sequences.
    pub open spec fn width(self) -> int {
        if self.sequences.len() == 0 {
            0
        } else {
            self.sequences[0].data.len() as int
        }
    }

    /// Rectangularity: every sequence row, every per-column annotation row
    /// and every per-residue annotation row has the alignment width.
    pub open spec fn rectangular(self) -> bool {
        &&& forall|i: int|
            0 <= i < self.sequences.len() ==> (#[trigger] self.sequences[i]).data.len()
                == self.width()
        &&& forall|i: int|
            0 <= i < self.column_annotations.len() ==> (#[trigger] self.column_annotations[i]).data.len()
                == self.width()
        &&& forall|i: int, j: int|
            0 <= i < self.residue_annotations.len() && 0 <= j
                < self.residue_annotations[i].rows.len() ==> (#[trigger] self.residue_annotations[i].rows[j]).data.len()
                == self.width()
    }

    /// Is `id` the identifier of some sequence in the alignment?
    pub open spec fn has_sequence_id(self, id: Seq<char>) -> bool {
        exists|i: int| 0 <= i < self.sequences.len() && (#[trigger] self.sequences[i]).id == id
    }

    /// Referential integrity: every annotation group is keyed by the
    /// identifier of a sequence that is present.
    pub open spec fn annotations_linked(self) -> bool {
        &&& forall|i: int|
            0 <= i < self.sequence_annotations.len() ==> self.has_sequence_id(
                (#[trigger] self.sequence_annotations[i]).id,
            )
        &&& forall|i: int|
            0 <= i < self.residue_annotations.len() ==> self.has_sequence_id(
                (#[trigger] self.residue_annotations[i]).id,
            )
    }

    /// The row-length validation the editor exposes: no
    /// sequences at all, or every sequence row and per-column annotation row
    /// has the alignment width.
    pub open spec fn lengths_valid(self) -> bool {
        self.sequences.len() == 0 || {
            &&& forall|i: int|
                0 <= i < self.sequences.len() ==> (#[trigger] self.sequences[i]).data.len()
                    == self.width()
            &&& forall|i: int|
                0 <= i < self.column_annotations.len() ==> (#[trigger] self.column_annotations[i]).data.len()
                    == self.width()
        }
    }

    /// The symbol at a cell, if the cell exists.
    pub open spec fn char_at(self, row: int, col: int) -> Option<char> {
        if 0 <= row < self.sequences.len() && 0 <= col < self.sequences[row].data.len() {
            Some(self.sequences[row].data[col])
        } else {
            None
        }
    }

    /// The alignment with the symbol at an in-range cell replaced, and an
    /// out-of-range edit ignored.
    pub open spec fn with_char(self, row: int, col: int, c: char) -> AlignmentModel {
        if 0 <= row < self.sequences.len() && 0 <= col < self.sequences[row].data.len() {
            AlignmentModel {
                sequences: self.sequences.update(
                    row,
                    SequenceModel {
                        id: self.sequences[row].id,
                        data: self.sequences[row].data.update(col, c),
                    },
                ),
                ..self
            }
        } else {
            self
        }
    }

    /// Does every sequence carry a gap symbol at `col`?
    pub open spec fn column_all_gaps(self, gaps: Seq<char>, col: int) -> bool {
        forall|i: int|
            0 <= i < self.sequences.len() ==> {
                let d = (#[trigger] self.sequences[i]).data;
                0 <= col < d.len() && gaps.contains(d[col])
            }
    }

    /// The alignment with a gap column inserted at `col` in every data row.
    pub open spec fn with_gap_column(self, col: int, c: char) -> AlignmentModel {
        rows_mapped(self, |d: Seq<char>| col_inserted(d, col, c))
    }

    /// The alignment with column `col` removed from every data row.
    pub open spec fn without_column(self, col: int) -> AlignmentModel {
        rows_mapped(self, |d: Seq<char>| col_removed(d, col))
    }
}

impl Alignment {
    /// Create a new empty alignment.
    pub fn new() -> (r: Self)
        ensures
            r@.file_annotations.len() == 0,
            r@.sequences.len() == 0,
            r@.sequence_annotations.len() == 0,
            r@.column_annotations.len() == 0,
            r@.residue_annotations.len() == 0,
    {
        Alignment {
            file_annotations: Vec::new(),
            sequences: Vec::new(),
            sequence_annotations: Vec::new(),
            column_annotations: Vec::new(),
            residue_annotations: Vec::new(),
        }
    }

    /// Get the number of sequences.
    pub fn num_sequences(&self) -> (n: usize)
        ensures
            n == self@.sequences.len(),
    {
        self.sequences.len()
    }

    /// Get the alignment width (number of columns).
    pub fn width(&self) -> (w: usize)
        ensures
            w == self@.width(),
    {
        if self.sequences.len() == 0 {
            0
        } else {
            self.sequences[0].data.len()
        }
    }

    /// Check that every sequence and per-column annotation row has the
    /// alignment width.
    pub fn is_valid(&self) -> (r: bool)
        ensures
            r == self@.lengths_valid(),
    {
        if self.sequences.len() == 0 {
            return true;
        }
        let width = self.sequences[0].data.len();
        let mut i: usize = 0;
        while i < self.sequences.len()
            invariant
                i <= self.sequences@.len(),
                self.sequences@.len() > 0,
                width == self@.width(),
                forall|k: int|
                    0 <= k < i ==> (#[trigger] self@.sequences[k]).data.len() == self@.width(),
            decreases self.sequences@.len() - i,
        {
            if self.sequences[i].data.len() != width {
                proof {
                    assert(self@.sequences[i as int].data.len() != self@.width());
                }
                return false;
            }
            i += 1;
        }
        let mut j: usize = 0;
        while j < self.column_annotations.len()
            invariant
                j <= self.column_annotations@.len(),
                self.sequences@.len() > 0,
                width == self@.width(),
                forall|k: int|
                    0 <= k < self@.sequences.len() ==> (#[trigger] self@.sequences[k]).data.len()
                        == self@.width(),
                forall|k: int|
                    0 <= k < j ==> (#[trigger] self@.column_annotations[k]).data.len()
                        == self@.width(),
            decreases self.column_annotations@.len() - j,
        {
            if self.column_annotations[j].data.len() != width {
                proof {
                    assert(self@.column_annotations[j as int].data.len() != self@.width());
                }
                return false;
            }
            j += 1;
        }
        true
    }

    /// Get the character at a specific cell, if the cell exists.
    pub fn get_char(&self, row: usize, col: usize) -> (r: Option<char>)
        ensures
            r == self@.char_at(row as int, col as int),
    {
        if row < self.sequences.len() {
            if col < self.sequences[row].data.len() {
                return Some(self.sequences[row].data[col]);
            }
        }
        None
    }

    /// Set the character at a specific cell; reports whether the cell
    /// exists (nothing is changed when it does not).
    pub fn set_char(&mut self, row: usize, col: usize, ch: char) -> (r: bool)
        ensures
            r == (row < old(self)@.sequences.len() && col < old(self)@.sequences[row as int].data.len()),
            final(self)@ == old(self)@.with_char(row as int, col as int, ch),
    {
        if row < self.sequences.len() {
            if col < self.sequences[row].data.len() {
                self.sequences[row].data[col] = ch;
                proof {
                    assert(self@.sequences =~= old(self)@.with_char(
                        row as int,
                        col as int,
                        ch,
                    ).sequences);
                    assert(self@ =~= old(self)@.with_char(row as int, col as int, ch));
                }
                return true;
            }
        }
        false
    }

    /// Insert a gap symbol at `col` into every sequence row, per-column
    /// annotation row and per-residue annotation row.
    pub fn insert_gap_column(&mut self, col: usize, gap_char: char)
        ensures
            final(self)@ == old(self)@.with_gap_column(col as int, gap_char),
    {
        let mut i: usize = 0;
        while i < self.sequences.len()
            invariant
                i <= self.sequences@.len(),
                self.sequences@.len() == old(self).sequences@.len(),
                forall|k: int|
                    0 <= k < i ==> (#[trigger] self.sequences@[k]).id == old(
                        self,
                    ).sequences@[k].id && self.sequences@[k].data@ == col_inserted(old(self).sequences@[k].data@, col as int, gap_char),
                forall|k: int|
                    i <= k < self.sequences@.len() ==> self.sequences@[k] == old(
                        self,
                    ).sequences@[k],
                self.file_annotations == old(self).file_annotations,
                self.sequence_annotations == old(self).sequence_annotations,
                self.column_annotations == old(self).column_annotations,
                self.residue_annotations == old(self).residue_annotations,
            decreases self.sequences@.len() - i,
        {
            self.sequences[i].insert_gap(col, gap_char);
            i += 1;
        }
        let mut j: usize = 0;
        while j < self.column_annotations.len()
            invariant
                j <= self.column_annotations@.len(),
                self.sequences@.len() == old(self).sequences@.len(),
                forall|k: int|
                    0 <= k < self.sequences@.len() ==> (#[trigger] self.sequences@[k]).id == old(
                        self,
                    ).sequences@[k].id && self.sequences@[k].data@ == col_inserted(old(self).sequences@[k].data@, col as int, gap_char),
                self.column_annotations@.len() == old(self).column_annotations@.len(),
                forall|k: int|
                    0 <= k < j ==> (#[trigger] self.column_annotations@[k]).tag == old(
                        self,
                    ).column_annotations@[k].tag && self.column_annotations@[k].data@ == col_inserted(old(self).column_annotations@[k].data@, col as int, gap_char),
                forall|k: int|
                    j <= k < self.column_annotations@.len() ==> self.column_annotations@[k] == old(
                        self,
                    ).column_annotations@[k],
                self.file_annotations == old(self).file_annotations,
                self.sequence_annotations == old(self).sequence_annotations,
                self.residue_annotations == old(self).residue_annotations,
            decreases self.column_annotations@.len() - j,
        {
            if col <= self.column_annotations[j].data.len() {
                self.column_annotations[j].data.insert(col, gap_char);
            }
            j += 1;
        }
        let mut gi: usize = 0;
        while gi < self.residue_annotations.len()
            invariant
                gi <= self.residue_annotations@.len(),
                self.sequences@.len() == old(self).sequences@.len(),
                forall|k: int|
                    0 <= k < self.sequences@.len() ==> (#[trigger] self.sequences@[k]).id == old(
                        self,
                    ).sequences@[k].id && self.sequences@[k].data@ == col_inserted(old(self).sequences@[k].data@, col as int, gap_char),
                self.column_annotations@.len() == old(self).column_annotations@.len(),
                forall|k: int|
                    0 <= k < self.column_annotations@.len() ==> (
                    #[trigger] self.column_annotations@[k]).tag == old(
                        self,
                    ).column_annotations@[k].tag && self.column_annotations@[k].data@ == col_inserted(old(self).column_annotations@[k].data@, col as int, gap_char),
                self.residue_annotations@.len() == old(self).residue_annotations@.len(),
                forall|k: int|
                    0 <= k < gi ==> {
                        let gnew = #[trigger] self.residue_annotations@[k];
                        let gold = old(self).residue_annotations@[k];
                        &&& gnew.id == gold.id
                        &&& gnew.rows@.len() == gold.rows@.len()
                        &&& forall|r: int|
                            0 <= r < gnew.rows@.len() ==> (#[trigger] gnew.rows@[r]).tag
                                == gold.rows@[r].tag && gnew.rows@[r].data@ == col_inserted(gold.rows@[r].data@, col as int, gap_char)
                    },
                forall|k: int|
                    gi <= k < self.residue_annotations@.len() ==> self.residue_annotations@[k]
                        == old(self).residue_annotations@[k],
                self.file_annotations == old(self).file_annotations,
                self.sequence_annotations == old(self).sequence_annotations,
            decreases self.residue_annotations@.len() - gi,
        {
            let mut ri: usize = 0;
            while ri < self.residue_annotations[gi].rows.len()
                invariant
                    gi < self.residue_annotations@.len(),
                    ri <= self.residue_annotations@[gi as int].rows@.len(),
                    self.sequences@.len() == old(self).sequences@.len(),
                    forall|k: int|
                        0 <= k < self.sequences@.len() ==> (#[trigger] self.sequences@[k]).id
                            == old(self).sequences@[k].id && self.sequences@[k].data@ == col_inserted(old(self).sequences@[k].data@, col as int, gap_char),
                    self.column_annotations@.len() == old(self).column_annotations@.len(),
                    forall|k: int|
                        0 <= k < self.column_annotations@.len() ==> (
                        #[trigger] self.column_annotations@[k]).tag == old(
                            self,
                        ).column_annotations@[k].tag && self.column_annotations@[k].data@ == col_inserted(old(self).column_annotations@[k].data@, col as int, gap_char),
                    self.residue_annotations@.len() == old(self).residue_annotations@.len(),
                    forall|k: int|
                        0 <= k < gi ==> {
                            let gnew = #[trigger] self.residue_annotations@[k];
                            let gold = old(self).residue_annotations@[k];
                            &&& gnew.id == gold.id
                            &&& gnew.rows@.len() == gold.rows@.len()
                            &&& forall|r: int|
                                0 <= r < gnew.rows@.len() ==> (#[trigger] gnew.rows@[r]).tag
                                    == gold.rows@[r].tag && gnew.rows@[r].data@ == col_inserted(gold.rows@[r].data@, col as int, gap_char)
                        },
                    forall|k: int|
                        gi < k < self.residue_annotations@.len() ==> self.residue_annotations@[k]
                            == old(self).residue_annotations@[k],
                    ({
                        let gnew = self.residue_annotations@[gi as int];
                        let gold = old(self).residue_annotations@[gi as int];
                        &&& gnew.id == gold.id
                        &&& gnew.rows@.len() == gold.rows@.len()
                        &&& forall|r: int|
                            0 <= r < ri ==> (#[trigger] gnew.rows@[r]).tag == gold.rows@[r].tag
                                && gnew.rows@[r].data@ == col_inserted(gold.rows@[r].data@, col as int, gap_char)
                        &&& forall|r: int|
                            ri <= r < gnew.rows@.len() ==> gnew.rows@[r] == gold.rows@[r]
                    }),
                    self.file_annotations == old(self).file_annotations,
                    self.sequence_annotations == old(self).sequence_annotations,
                decreases self.residue_annotations@[gi as int].rows@.len() - ri,
            {
                if col <= self.residue_annotations[gi].rows[ri].data.len() {
                    self.residue_annotations[gi].rows[ri].data.insert(col, gap_char);
                }
                ri += 1;
            }
            gi += 1;
        }
        proof {
            let m1 = old(self)@.with_gap_column(col as int, gap_char);
            assert(self@.sequences =~= m1.sequences);
            assert(self@.column_annotations =~= m1.column_annotations);
            assert forall|k: int|
                0 <= k < self@.residue_annotations.len() implies self@.residue_annotations[k]
                == m1.residue_annotations[k] by {
                assert(self@.residue_annotations[k].rows =~= m1.residue_annotations[k].rows);
                assert(self@.residue_annotations[k] =~= m1.residue_annotations[k]);
            }
            assert(self@.residue_annotations =~= m1.residue_annotations);
            assert(self@ =~= m1);
        }
    }

    /// Delete column `col` from every data row, provided every sequence
    /// carries a gap symbol there; otherwise report failure and leave the
    /// alignment untouched.
    pub fn delete_gap_column(&mut self, col: usize, gap_chars: &Vec<char>) -> (r: bool)
        ensures
            r == old(self)@.column_all_gaps(gap_chars@, col as int),
            r ==> final(self)@ == old(self)@.without_column(col as int),
            !r ==> *final(self) == *old(self),
    {
        let mut c: usize = 0;
        while c < self.sequences.len()
            invariant
                c <= self.sequences@.len(),
                forall|k: int|
                    0 <= k < c ==> {
                        let d = (#[trigger] self@.sequences[k]).data;
                        0 <= col < d.len() && gap_chars@.contains(d[col as int])
                    },
            decreases self.sequences@.len() - c,
        {
            if col >= self.sequences[c].data.len() {
                proof {
                    assert(!(col < old(self)@.sequences[c as int].data.len()));
                }
                return false;
            }
            if !char_in(gap_chars, self.sequences[c].data[col]) {
                proof {
                    assert(!gap_chars@.contains(
                        old(self)@.sequences[c as int].data[col as int],
                    ));
                }
                return false;
            }
            c += 1;
        }
        let mut i: usize = 0;
        while i < self.sequences.len()
            invariant
                i <= self.sequences@.len(),
                self.sequences@.len() == old(self).sequences@.len(),
                forall|k: int|
                    0 <= k < i ==> (#[trigger] self.sequences@[k]).id == old(
                        self,
                    ).sequences@[k].id && self.sequences@[k].data@ == col_removed(old(self).sequences@[k].data@, col as int),
                forall|k: int|
                    i <= k < self.sequences@.len() ==> self.sequences@[k] == old(
                        self,
                    ).sequences@[k],
                self.file_annotations == old(self).file_annotations,
                self.sequence_annotations == old(self).sequence_annotations,
                self.column_annotations == old(self).column_annotations,
                self.residue_annotations == old(self).residue_annotations,
            decreases self.sequences@.len() - i,
        {
            if col < self.sequences[i].data.len() {
                self.sequences[i].data.remove(col);
            }
            i += 1;
        }
        let mut j: usize = 0;
        while j < self.column_annotations.len()
            invariant
                j <= self.column_annotations@.len(),
                self.sequences@.len() == old(self).sequences@.len(),
                forall|k: int|
                    0 <= k < self.sequences@.len() ==> (#[trigger] self.sequences@[k]).id == old(
                        self,
                    ).sequences@[k].id && self.sequences@[k].data@ == col_removed(old(self).sequences@[k].data@, col as int),
                self.column_annotations@.len() == old(self).column_annotations@.len(),
                forall|k: int|
                    0 <= k < j ==> (#[trigger] self.column_annotations@[k]).tag == old(
                        self,
                    ).column_annotations@[k].tag && self.column_annotations@[k].data@ == col_removed(old(self).column_annotations@[k].data@, col as int),
                forall|k: int|
                    j <= k < self.column_annotations@.len() ==> self.column_annotations@[k] == old(
                        self,
                    ).column_annotations@[k],
                self.file_annotations == old(self).file_annotations,
                self.sequence_annotations == old(self).sequence_annotations,
                self.residue_annotations == old(self).residue_annotations,
            decreases self.column_annotations@.len() - j,
        {
            if col < self.column_annotations[j].data.len() {
                self.column_annotations[j].data.remove(col);
            }
            j += 1;
        }
        let mut gi: usize = 0;
        while gi < self.residue_annotations.len()
            invariant
                gi <= self.residue_annotations@.len(),
                self.sequences@.len() == old(self).sequences@.len(),
                forall|k: int|
                    0 <= k < self.sequences@.len() ==> (#[trigger] self.sequences@[k]).id == old(
                        self,
                    ).sequences@[k].id && self.sequences@[k].data@ == col_removed(old(self).sequences@[k].data@, col as int),
                self.column_annotations@.len() == old(self).column_annotations@.len(),
                forall|k: int|
                    0 <= k < self.column_annotations@.len() ==> (
                    #[trigger] self.column_annotations@[k]).tag == old(
                        self,
                    ).column_annotations@[k].tag && self.column_annotations@[k].data@ == col_removed(old(self).column_annotations@[k].data@, col as int),
                self.residue_annotations@.len() == old(self).residue_annotations@.len(),
                forall|k: int|
                    0 <= k < gi ==> {
                        let gnew = #[trigger] self.residue_annotations@[k];
                        let gold = old(self).residue_annotations@[k];
                        &&& gnew.id == gold.id
                        &&& gnew.rows@.len() == gold.rows@.len()
                        &&& forall|r: int|
                            0 <= r < gnew.rows@.len() ==> (#[trigger] gnew.rows@[r]).tag
                                == gold.rows@[r].tag && gnew.rows@[r].data@ == col_removed(gold.rows@[r].data@, col as int)
                    },
                forall|k: int|
                    gi <= k < self.residue_annotations@.len() ==> self.residue_annotations@[k]
                        == old(self).residue_annotations@[k],
                self.file_annotations == old(self).file_annotations,
                self.sequence_annotations == old(self).sequence_annotations,
            decreases self.residue_annotations@.len() - gi,
        {
            let mut ri: usize = 0;
            while ri < self.residue_annotations[gi].rows.len()
                invariant
                    gi < self.residue_annotations@.len(),
                    ri <= self.residue_annotations@[gi as int].rows@.len(),
                    self.sequences@.len() == old(self).sequences@.len(),
                    forall|k: int|
                        0 <= k < self.sequences@.len() ==> (#[trigger] self.sequences@[k]).id
                            == old(self).sequences@[k].id && self.sequences@[k].data@ == col_removed(old(self).sequences@[k].data@, col as int),
                    self.column_annotations@.len() == old(self).column_annotations@.len(),
                    forall|k: int|
                        0 <= k < self.column_annotations@.len() ==> (
                        #[trigger] self.column_annotations@[k]).tag == old(
                            self,
                        ).column_annotations@[k].tag && self.column_annotations@[k].data@ == col_removed(old(self).column_annotations@[k].data@, col as int),
                    self.residue_annotations@.len() == old(self).residue_annotations@.len(),
                    forall|k: int|
                        0 <= k < gi ==> {
                            let gnew = #[trigger] self.residue_annotations@[k];
                            let gold = old(self).residue_annotations@[k];
                            &&& gnew.id == gold.id
                            &&& gnew.rows@.len() == gold.rows@.len()
                            &&& forall|r: int|
                                0 <= r < gnew.rows@.len() ==> (#[trigger] gnew.rows@[r]).tag
                                    == gold.rows@[r].tag && gnew.rows@[r].data@ == col_removed(gold.rows@[r].data@, col as int)
                        },
                    forall|k: int|
                        gi < k < self.residue_annotations@.len() ==> self.residue_annotations@[k]
                            == old(self).residue_annotations@[k],
                    ({
                        let gnew = self.residue_annotations@[gi as int];
                        let gold = old(self).residue_annotations@[gi as int];
                        &&& gnew.id == gold.id
                        &&& gnew.rows@.len() == gold.rows@.len()
                        &&& forall|r: int|
                            0 <= r < ri ==> (#[trigger] gnew.rows@[r]).tag == gold.rows@[r].tag
                                && gnew.rows@[r].data@ == col_removed(gold.rows@[r].data@, col as int)
                        &&& forall|r: int|
                            ri <= r < gnew.rows@.len() ==> gnew.rows@[r] == gold.rows@[r]
                    }),
                    self.file_annotations == old(self).file_annotations,
                    self.sequence_annotations == old(self).sequence_annotations,
                decreases self.residue_annotations@[gi as int].rows@.len() - ri,
            {
                if col < self.residue_annotations[gi].rows[ri].data.len() {
                    self.residue_annotations[gi].rows[ri].data.remove(col);
                }
                ri += 1;
            }
            gi += 1;
        }
        proof {
            let m1 = old(self)@.without_column(col as int);
            assert(self@.sequences =~= m1.sequences);
            assert(self@.column_annotations =~= m1.column_annotations);
            assert forall|k: int|
                0 <= k < self@.residue_annotations.len() implies self@.residue_annotations[k]
                == m1.residue_annotations[k] by {
                assert(self@.residue_annotations[k].rows =~= m1.residue_annotations[k].rows);
                assert(self@.residue_annotations[k] =~= m1.residue_annotations[k]);
            }
            assert(self@.residue_annotations =~= m1.residue_annotations);
            assert(self@ =~= m1);
        }
        true
    }
}

/// Index of the first per-column annotation carrying `tag`, or -1 if none.
pub open spec fn find_tagged(anns: Seq<ColumnAnnotationModel>, tag: Seq<char>) -> int
    decreases anns.len(),
{
    if anns.len() == 0 {
        -1
    } else if anns[0].tag == tag {
        0
    } else {
        let r = find_tagged(anns.drop_first(), tag);
        if r == -1 {
            -1
        } else {
            r + 1
        }
    }
}

/// What `find_tagged` finds: the first annotation with that tag, if any.
pub proof fn lemma_find_tagged(anns: Seq<ColumnAnnotationModel>, tag: Seq<char>)
    ensures
        -1 <= find_tagged(anns, tag) < anns.len(),
        find_tagged(anns, tag) == -1 ==> forall|k: int|
            0 <= k < anns.len() ==> (#[trigger] anns[k]).tag != tag,
        find_tagged(anns, tag) >= 0 ==> {
            let i = find_tagged(anns, tag);
            &&& 0 <= i < anns.len()
            &&& anns[i].tag == tag
            &&& forall|k: int| 0 <= k < i ==> (#[trigger] anns[k]).tag != tag
        },
    decreases anns.len(),
{
    if anns.len() == 0 {
    } else if anns[0].tag == tag {
        assert(find_tagged(anns, tag) == 0);
    } else {
        let d = anns.drop_first();
        lemma_find_tagged(d, tag);
        let r = find_tagged(d, tag);
        assert(d.len() == anns.len() - 1);
        if r == -1 {
            assert(find_tagged(anns, tag) == -1);
            assert forall|k: int| 0 <= k < anns.len() implies (#[trigger] anns[k]).tag != tag by {
                if k >= 1 {
                    assert(d[k - 1] == anns[k]);
                    assert(d[k - 1].tag != tag);
                }
            }
        } else {
            assert(find_tagged(anns, tag) == r + 1);
            assert(0 <= r < d.len());
            assert(anns[r + 1] == d[r]);
            assert(anns[r + 1].tag == tag);
            assert forall|k: int| 0 <= k < r + 1 implies (#[trigger] anns[k]).tag != tag by {
                if k >= 1 {
                    assert(d[k - 1] == anns[k]);
                    assert(d[k - 1].tag != tag);
                }
            }
        }
    }
}

impl Alignment {
    /// Index of the first per-column annotation carrying `tag`, if any.
    fn find_column_annotation(&self, tag: &str) -> (r: Option<usize>)
        ensures
            (match r {
                Some(i) => i == find_tagged(self@.column_annotations, tag@),
                None => find_tagged(self@.column_annotations, tag@) == -1,
            }),
    {
        let mut j: usize = 0;
        while j < self.column_annotations.len()
            invariant
                j <= self.column_annotations@.len(),
                forall|k: int|
                    0 <= k < j ==> (#[trigger] self@.column_annotations[k]).tag != tag@,
            decreases self.column_annotations@.len() - j,
        {
            let t: &str = &self.column_annotations[j].tag;
            if str_eq(t, tag) {
                proof {
                    assert(self@.column_annotations[j as int].tag == tag@);
                    lemma_find_tagged(self@.column_annotations, tag@);
                    let fi = find_tagged(self@.column_annotations, tag@);
                    if fi >= 0 && fi < j as int {
                        assert(self@.column_annotations[fi].tag != tag@);
                    }
                    if fi > j as int {
                        assert(self@.column_annotations[j as int].tag != tag@);
                    }
                }
                return Some(j);
            }
            j += 1;
        }
        proof {
            lemma_find_tagged(self@.column_annotations, tag@);
            let fi = find_tagged(self@.column_annotations, tag@);
            if fi >= 0 {
                assert(self@.column_annotations[fi].tag != tag@);
            }
        }
        None
    }

    /// Get the consensus secondary structure annotation if present.
    pub fn ss_cons(&self) -> (r: Option<Vec<char>>)
        ensures
            (match r {
                Some(v) => {
                    let i = find_tagged(self@.column_annotations, "SS_cons"@);
                    i >= 0 && v@ == self@.column_annotations[i].data
                },
                None => find_tagged(self@.column_annotations, "SS_cons"@) == -1,
            }),
    {
        match self.find_column_annotation("SS_cons") {
            Some(i) => {
                proof {
                    lemma_find_tagged(self@.column_annotations, "SS_cons"@);
                }
                let v = self.column_annotations[i].data.clone();
                proof {
                    assert(v@ =~= self@.column_annotations[i as int].data);
                }
                Some(v)
            },
            None => None,
        }
    }

    /// Get the reference-column annotation if present.
    pub fn rf(&self) -> (r: Option<Vec<char>>)
        ensures
            (match r {
                Some(v) => {
                    let i = find_tagged(self@.column_annotations, "RF"@);
                    i >= 0 && v@ == self@.column_annotations[i].data
                },
                None => find_tagged(self@.column_annotations, "RF"@) == -1,
            }),
    {
        match self.find_column_annotation("RF") {
            Some(i) => {
                proof {
                    lemma_find_tagged(self@.column_annotations, "RF"@);
                }
                let v = self.column_annotations[i].data.clone();
                proof {
                    assert(v@ =~= self@.column_annotations[i as int].data);
                }
                Some(v)
            },
            None => None,
        }
    }

    /// Replace the data of the consensus secondary structure annotation;
    /// reports whether one was present to replace.
    pub fn set_ss_cons(&mut self, data: Vec<char>) -> (r: bool)
        ensures
            r == (find_tagged(old(self)@.column_annotations, "SS_cons"@) >= 0),
            r ==> final(self)@ == (AlignmentModel {
                column_annotations: old(self)@.column_annotations.update(
                    find_tagged(old(self)@.column_annotations, "SS_cons"@),
                    ColumnAnnotationModel {
                        tag: old(self)@.column_annotations[find_tagged(
                            old(self)@.column_annotations,
                            "SS_cons"@,
                        )].tag,
                        data: data@,
                    },
                ),
                ..old(self)@
            }),
            !r ==> *final(self) == *old(self),
    {
        match self.find_column_annotation("SS_cons") {
            Some(i) => {
                proof {
                    lemma_find_tagged(self@.column_annotations, "SS_cons"@);
                }
                self.column_annotations[i].data = data;
                proof {
                    let m1 = (AlignmentModel {
                        column_annotations: old(self)@.column_annotations.update(
                            i as int,
                            ColumnAnnotationModel {
                                tag: old(self)@.column_annotations[i as int].tag,
                                data: data@,
                            },
                        ),
                        ..old(self)@
                    });
                    assert(self@.column_annotations =~= m1.column_annotations);
                    assert(self@ =~= m1);
                }
                true
            },
            None => false,
        }
    }

    /// Get the maximum sequence identifier length (for display formatting).
    pub fn max_id_len(&self) -> (r: usize)
        ensures
            forall|k: int|
                0 <= k < self@.sequences.len() ==> (#[trigger] self@.sequences[k]).id.len() <= r,
            r == 0 || exists|k: int|
                0 <= k < self@.sequences.len() && (#[trigger] self@.sequences[k]).id.len() == r,
    {
        let mut m: usize = 0;
        let mut i: usize = 0;
        while i < self.sequences.len()
            invariant
                i <= self.sequences@.len(),
                forall|k: int| 0 <= k < i ==> (#[trigger] self@.sequences[k]).id.len() <= m,
                m == 0 || exists|k: int|
                    0 <= k < i && (#[trigger] self@.sequences[k]).id.len() == m,
            decreases self.sequences@.len() - i,
        {
            let id: &str = &self.sequences[i].id;
            let l = id.unicode_len();
            if l > m {
                m = l;
                proof {
                    assert(self@.sequences[i as int].id.len() == m);
                }
            }
            i += 1;
        }
        m
    }
}

/// Insert one symbol into a row at `col`; out-of-range positions are
/// ignored.
pub fn chars_insert(data: &mut Vec<char>, col: usize, c: char)
    ensures
        final(data)@ == col_inserted(old(data)@, col as int, c),
{
    if col <= data.len() {
        data.insert(col, c);
    }
}

/// Remove the symbol of a row at `col`; rows without that column are left
/// alone.
pub fn chars_remove(data: &mut Vec<char>, col: usize)
    ensures
        final(data)@ == col_removed(old(data)@, col as int),
{
    if col < data.len() {
        data.remove(col);
    }
}

/// A row after a left shift attempt: shifted when a gap was available,
/// untouched otherwise.
pub open spec fn shifted_left_row_data(d: Seq<char>, gaps: Seq<char>, col: int) -> Seq<char> {
    if can_shift_left(d, gaps, col) {
        row_shifted_left(d, gaps, col)
    } else {
        d
    }
}

/// A row after a right shift attempt: shifted when a gap was available,
/// untouched otherwise.
pub open spec fn shifted_right_row_data(d: Seq<char>, gaps: Seq<char>, col: int) -> Seq<char> {
    if can_shift_right(d, gaps, col) {
        row_shifted_right(d, gaps, col)
    } else {
        d
    }
}

/// One sequence row edited by `f`, with the edit mirrored into every
/// residue annotation row owned by that sequence's identifier; everything
/// else unchanged.  All row-local operations are instances of this shape.
pub open spec fn row_edited(al: AlignmentModel, row: int, f: spec_fn(Seq<char>) -> Seq<char>) -> AlignmentModel {
    if 0 <= row < al.sequences.len() {
        let id = al.sequences[row].id;
        AlignmentModel {
            sequences: al.sequences.update(
                row,
                SequenceModel { id: id, data: f(al.sequences[row].data) },
            ),
            residue_annotations: al.residue_annotations.map_values(
                |g: ResidueAnnotationGroupModel|
                    if g.id == id {
                        ResidueAnnotationGroupModel {
                            id: g.id,
                            rows: g.rows.map_values(
                                |r: ResidueAnnotationModel| ResidueAnnotationModel {
                                    tag: r.tag,
                                    data: f(r.data),
                                },
                            ),
                        }
                    } else {
                        g
                    },
            ),
            ..al
        }
    } else {
        al
    }
}

/// An alignment with a gap inserted at `col` of one sequence row and of its
/// residue annotation rows.
pub open spec fn row_gap_inserted(al: AlignmentModel, row: int, col: int, gap: char) -> AlignmentModel {
    row_edited(al, row, |d: Seq<char>| col_inserted(d, col, gap))
}

/// An alignment with the symbol at `col` removed from one sequence row and
/// from its residue annotation rows.
pub open spec fn row_gap_removed(al: AlignmentModel, row: int, col: int) -> AlignmentModel {
    row_edited(al, row, |d: Seq<char>| col_removed(d, col))
}

/// An alignment with one sequence row (and its residue annotation rows)
/// shifted left at `col`.
pub open spec fn row_shifted_left_in(al: AlignmentModel, row: int, col: int, gaps: Seq<char>) -> AlignmentModel {
    row_edited(al, row, |d: Seq<char>| shifted_left_row_data(d, gaps, col))
}

/// An alignment with one sequence row (and its residue annotation rows)
/// shifted right at `col`.
pub open spec fn row_shifted_right_in(al: AlignmentModel, row: int, col: int, gaps: Seq<char>) -> AlignmentModel {
    row_edited(al, row, |d: Seq<char>| shifted_right_row_data(d, gaps, col))
}

impl Alignment {
    /// Insert a gap symbol at `col` of one sequence row, mirroring the
    /// insertion into every residue annotation row owned by that sequence's
    /// identifier.  An out-of-range row is ignored.
    pub fn insert_gap_in_row(&mut self, row: usize, col: usize, gap_char: char)
        ensures
            final(self)@ == row_gap_inserted(old(self)@, row as int, col as int, gap_char),
    {
        if row >= self.sequences.len() {
            return ;
        }
        let id = self.sequences[row].id.clone();
        self.sequences[row].insert_gap(col, gap_char);
        let mut gi: usize = 0;
        while gi < self.residue_annotations.len()
            invariant
                row < old(self).sequences@.len(),
                id == old(self).sequences@[row as int].id,
                gi <= self.residue_annotations@.len(),
                self.sequences@.len() == old(self).sequences@.len(),
                forall|k: int|
                    0 <= k < self.sequences@.len() && k != row ==> self.sequences@[k] == old(
                        self,
                    ).sequences@[k],
                self.sequences@[row as int].id == old(self).sequences@[row as int].id,
                self.sequences@[row as int].data@ == col_inserted(
                    old(self).sequences@[row as int].data@,
                    col as int,
                    gap_char,
                ),
                self.residue_annotations@.len() == old(self).residue_annotations@.len(),
                forall|k: int|
                    0 <= k < gi ==> ({
                        let gnew = #[trigger] self.residue_annotations@[k];
                        let gold = old(self).residue_annotations@[k];
                        &&& gnew.id == gold.id
                        &&& (gold.id@ == id@ ==> gnew.rows@.len() == gold.rows@.len() && forall|
                            r: int,
                        |
                            0 <= r < gnew.rows@.len() ==> (#[trigger] gnew.rows@[r]).tag
                                == gold.rows@[r].tag && gnew.rows@[r].data@ == col_inserted(
                                gold.rows@[r].data@,
                                col as int,
                                gap_char,
                            ))
                        &&& (gold.id@ != id@ ==> gnew == gold)
                    }),
                forall|k: int|
                    gi <= k < self.residue_annotations@.len() ==> self.residue_annotations@[k]
                        == old(self).residue_annotations@[k],
                self.file_annotations == old(self).file_annotations,
                self.sequence_annotations == old(self).sequence_annotations,
                self.column_annotations == old(self).column_annotations,
            decreases self.residue_annotations@.len() - gi,
        {
            if self.residue_annotations[gi].id == id {
                let mut ri: usize = 0;
                while ri < self.residue_annotations[gi].rows.len()
                    invariant
                        row < old(self).sequences@.len(),
                        id == old(self).sequences@[row as int].id,
                        gi < self.residue_annotations@.len(),
                        ri <= self.residue_annotations@[gi as int].rows@.len(),
                        self.sequences@.len() == old(self).sequences@.len(),
                        forall|k: int|
                            0 <= k < self.sequences@.len() && k != row ==> self.sequences@[k]
                                == old(self).sequences@[k],
                        self.sequences@[row as int].id == old(self).sequences@[row as int].id,
                        self.sequences@[row as int].data@ == col_inserted(
                            old(self).sequences@[row as int].data@,
                            col as int,
                            gap_char,
                        ),
                        self.residue_annotations@.len() == old(self).residue_annotations@.len(),
                        forall|k: int|
                            0 <= k < gi ==> ({
                                let gnew = #[trigger] self.residue_annotations@[k];
                                let gold = old(self).residue_annotations@[k];
                                &&& gnew.id == gold.id
                                &&& (gold.id@ == id@ ==> gnew.rows@.len() == gold.rows@.len()
                                    && forall|r: int|
                                    0 <= r < gnew.rows@.len() ==> (#[trigger] gnew.rows@[r]).tag
                                        == gold.rows@[r].tag && gnew.rows@[r].data@ == col_inserted(
                                        gold.rows@[r].data@,
                                        col as int,
                                        gap_char,
                                    ))
                                &&& (gold.id@ != id@ ==> gnew == gold)
                            }),
                        forall|k: int|
                            gi < k < self.residue_annotations@.len() ==> self.residue_annotations@[k]
                                == old(self).residue_annotations@[k],
                        ({
                            let gnew = self.residue_annotations@[gi as int];
                            let gold = old(self).residue_annotations@[gi as int];
                            &&& gnew.id == gold.id
                            &&& gold.id@ == id@
                            &&& gnew.rows@.len() == gold.rows@.len()
                            &&& forall|r: int|
                                0 <= r < ri ==> (#[trigger] gnew.rows@[r]).tag == gold.rows@[r].tag
                                    && gnew.rows@[r].data@ == col_inserted(
                                    gold.rows@[r].data@,
                                    col as int,
                                    gap_char,
                                )
                            &&& forall|r: int|
                                ri <= r < gnew.rows@.len() ==> gnew.rows@[r] == gold.rows@[r]
                        }),
                        self.file_annotations == old(self).file_annotations,
                        self.sequence_annotations == old(self).sequence_annotations,
                        self.column_annotations == old(self).column_annotations,
                    decreases self.residue_annotations@[gi as int].rows@.len() - ri,
                {
                    chars_insert(&mut self.residue_annotations[gi].rows[ri].data, col, gap_char);
                    ri += 1;
                }
            }
            gi += 1;
        }
        proof {
            let m1 = row_gap_inserted(old(self)@, row as int, col as int, gap_char);
            assert(self@.sequences =~= m1.sequences);
            assert forall|k: int|
                0 <= k < self@.residue_annotations.len() implies self@.residue_annotations[k]
                == m1.residue_annotations[k] by {
                assert(self@.residue_annotations[k].rows =~= m1.residue_annotations[k].rows);
                assert(self@.residue_annotations[k] =~= m1.residue_annotations[k]);
            }
            assert(self@.residue_annotations =~= m1.residue_annotations);
            assert(self@ =~= m1);
        }
    }

    /// Delete the symbol at `col` of one sequence row, provided it is a gap
    /// symbol, mirroring the removal into that sequence's residue
    /// annotation rows; otherwise report failure and change nothing.
    pub fn delete_gap_in_row(&mut self, row: usize, col: usize, gap_chars: &Vec<char>) -> (r: bool)
        ensures
            r == (row < old(self)@.sequences.len() && col < old(
                self,
            )@.sequences[row as int].data.len() && gap_chars@.contains(
                old(self)@.sequences[row as int].data[col as int],
            )),
            r ==> final(self)@ == row_gap_removed(old(self)@, row as int, col as int),
            !r ==> *final(self) == *old(self),
    {
        if row >= self.sequences.len() {
            return false;
        }
        if col >= self.sequences[row].data.len() {
            return false;
        }
        if !char_in(gap_chars, self.sequences[row].data[col]) {
            return false;
        }
        let id = self.sequences[row].id.clone();
        chars_remove(&mut self.sequences[row].data, col);
        let mut gi: usize = 0;
        while gi < self.residue_annotations.len()
            invariant
                row < old(self).sequences@.len(),
                id == old(self).sequences@[row as int].id,
                gi <= self.residue_annotations@.len(),
                self.sequences@.len() == old(self).sequences@.len(),
                forall|k: int|
                    0 <= k < self.sequences@.len() && k != row ==> self.sequences@[k] == old(
                        self,
                    ).sequences@[k],
                self.sequences@[row as int].id == old(self).sequences@[row as int].id,
                self.sequences@[row as int].data@ == col_removed(
                    old(self).sequences@[row as int].data@,
                    col as int,
                ),
                self.residue_annotations@.len() == old(self).residue_annotations@.len(),
                forall|k: int|
                    0 <= k < gi ==> ({
                        let gnew = #[trigger] self.residue_annotations@[k];
                        let gold = old(self).residue_annotations@[k];
                        &&& gnew.id == gold.id
                        &&& (gold.id@ == id@ ==> gnew.rows@.len() == gold.rows@.len() && forall|
                            r: int,
                        |
                            0 <= r < gnew.rows@.len() ==> (#[trigger] gnew.rows@[r]).tag
                                == gold.rows@[r].tag && gnew.rows@[r].data@ == col_removed(
                                gold.rows@[r].data@,
                                col as int,
                            ))
                        &&& (gold.id@ != id@ ==> gnew == gold)
                    }),
                forall|k: int|
                    gi <= k < self.residue_annotations@.len() ==> self.residue_annotations@[k]
                        == old(self).residue_annotations@[k],
                self.file_annotations == old(self).file_annotations,
                self.sequence_annotations == old(self).sequence_annotations,
                self.column_annotations == old(self).column_annotations,
            decreases self.residue_annotations@.len() - gi,
        {
            if self.residue_annotations[gi].id == id {
                let mut ri: usize = 0;
                while ri < self.residue_annotations[gi].rows.len()
                    invariant
                        row < old(self).sequences@.len(),
                        id == old(self).sequences@[row as int].id,
                        gi < self.residue_annotations@.len(),
                        ri <= self.residue_annotations@[gi as int].rows@.len(),
                        self.sequences@.len() == old(self).sequences@.len(),
                        forall|k: int|
                            0 <= k < self.sequences@.len() && k != row ==> self.sequences@[k]
                                == old(self).sequences@[k],
                        self.sequences@[row as int].id == old(self).sequences@[row as int].id,
                        self.sequences@[row as int].data@ == col_removed(
                            old(self).sequences@[row as int].data@,
                            col as int,
                        ),
                        self.residue_annotations@.len() == old(self).residue_annotations@.len(),
                        forall|k: int|
                            0 <= k < gi ==> ({
                                let gnew = #[trigger] self.residue_annotations@[k];
                                let gold = old(self).residue_annotations@[k];
                                &&& gnew.id == gold.id
                                &&& (gold.id@ == id@ ==> gnew.rows@.len() == gold.rows@.len()
                                    && forall|r: int|
                                    0 <= r < gnew.rows@.len() ==> (#[trigger] gnew.rows@[r]).tag
                                        == gold.rows@[r].tag && gnew.rows@[r].data@ == col_removed(
                                        gold.rows@[r].data@,
                                        col as int,
                                    ))
                                &&& (gold.id@ != id@ ==> gnew == gold)
                            }),
                        forall|k: int|
                            gi < k < self.residue_annotations@.len() ==> self.residue_annotations@[k]
                                == old(self).residue_annotations@[k],
                        ({
                            let gnew = self.residue_annotations@[gi as int];
                            let gold = old(self).residue_annotations@[gi as int];
                            &&& gnew.id == gold.id
                            &&& gold.id@ == id@
                            &&& gnew.rows@.len() == gold.rows@.len()
                            &&& forall|r: int|
                                0 <= r < ri ==> (#[trigger] gnew.rows@[r]).tag == gold.rows@[r].tag
                                    && gnew.rows@[r].data@ == col_removed(
                                    gold.rows@[r].data@,
                                    col as int,
                                )
                            &&& forall|r: int|
                                ri <= r < gnew.rows@.len() ==> gnew.rows@[r] == gold.rows@[r]
                        }),
                        self.file_annotations == old(self).file_annotations,
                        self.sequence_annotations == old(self).sequence_annotations,
                        self.column_annotations == old(self).column_annotations,
                    decreases self.residue_annotations@[gi as int].rows@.len() - ri,
                {
                    chars_remove(&mut self.residue_annotations[gi].rows[ri].data, col);
                    ri += 1;
                }
            }
            gi += 1;
        }
        proof {
            let m1 = row_gap_removed(old(self)@, row as int, col as int);
            assert(self@.sequences =~= m1.sequences);
            assert forall|k: int|
                0 <= k < self@.residue_annotations.len() implies self@.residue_annotations[k]
                == m1.residue_annotations[k] by {
                assert(self@.residue_annotations[k].rows =~= m1.residue_annotations[k].rows);
                assert(self@.residue_annotations[k] =~= m1.residue_annotations[k]);
            }
            assert(self@.residue_annotations =~= m1.residue_annotations);
            assert(self@ =~= m1);
        }
        true
    }

    /// Shift one sequence row left at `col` (consuming its nearest gap to
    /// the left), applying the identical search-and-splice to each of that
    /// sequence's residue annotation rows.  Reports false, without
    /// mutating, when the sequence itself has no gap to consume.
    pub fn shift_row_left(&mut self, row: usize, col: usize, gap_chars: &Vec<char>) -> (r: bool)
        ensures
            r == (row < old(self)@.sequences.len() && can_shift_left(
                old(self)@.sequences[row as int].data,
                gap_chars@,
                col as int,
            )),
            r ==> final(self)@ == row_shifted_left_in(old(self)@, row as int, col as int, gap_chars@),
            !r ==> final(self)@ == old(self)@,
    {
        if row >= self.sequences.len() {
            return false;
        }
        let id = self.sequences[row].id.clone();
        let ok = shift_chars_left(&mut self.sequences[row].data, col, gap_chars);
        if !ok {
            proof {
                assert(self@.sequences =~= old(self)@.sequences);
                assert(self@ =~= old(self)@);
            }
            return false;
        }
        let mut gi: usize = 0;
        while gi < self.residue_annotations.len()
            invariant
                row < old(self).sequences@.len(),
                id == old(self).sequences@[row as int].id,
                gi <= self.residue_annotations@.len(),
                self.sequences@.len() == old(self).sequences@.len(),
                forall|k: int|
                    0 <= k < self.sequences@.len() && k != row ==> self.sequences@[k] == old(
                        self,
                    ).sequences@[k],
                self.sequences@[row as int].id == old(self).sequences@[row as int].id,
                self.sequences@[row as int].data@ == shifted_left_row_data(
                    old(self).sequences@[row as int].data@,
                    gap_chars@,
                    col as int,
                ),
                self.residue_annotations@.len() == old(self).residue_annotations@.len(),
                forall|k: int|
                    0 <= k < gi ==> ({
                        let gnew = #[trigger] self.residue_annotations@[k];
                        let gold = old(self).residue_annotations@[k];
                        &&& gnew.id == gold.id
                        &&& (gold.id@ == id@ ==> gnew.rows@.len() == gold.rows@.len() && forall|
                            r: int,
                        |
                            0 <= r < gnew.rows@.len() ==> (#[trigger] gnew.rows@[r]).tag
                                == gold.rows@[r].tag && gnew.rows@[r].data@ == shifted_left_row_data(
                                gold.rows@[r].data@,
                                gap_chars@,
                                col as int,
                            ))
                        &&& (gold.id@ != id@ ==> gnew == gold)
                    }),
                forall|k: int|
                    gi <= k < self.residue_annotations@.len() ==> self.residue_annotations@[k]
                        == old(self).residue_annotations@[k],
                self.file_annotations == old(self).file_annotations,
                self.sequence_annotations == old(self).sequence_annotations,
                self.column_annotations == old(self).column_annotations,
            decreases self.residue_annotations@.len() - gi,
        {
            if self.residue_annotations[gi].id == id {
                let mut ri: usize = 0;
                while ri < self.residue_annotations[gi].rows.len()
                    invariant
                        row < old(self).sequences@.len(),
                        id == old(self).sequences@[row as int].id,
                        gi < self.residue_annotations@.len(),
                        ri <= self.residue_annotations@[gi as int].rows@.len(),
                        self.sequences@.len() == old(self).sequences@.len(),
                        forall|k: int|
                            0 <= k < self.sequences@.len() && k != row ==> self.sequences@[k]
                                == old(self).sequences@[k],
                        self.sequences@[row as int].id == old(self).sequences@[row as int].id,
                        self.sequences@[row as int].data@ == shifted_left_row_data(
                            old(self).sequences@[row as int].data@,
                            gap_chars@,
                            col as int,
                        ),
                        self.residue_annotations@.len() == old(self).residue_annotations@.len(),
                        forall|k: int|
                            0 <= k < gi ==> ({
                                let gnew = #[trigger] self.residue_annotations@[k];
                                let gold = old(self).residue_annotations@[k];
                                &&& gnew.id == gold.id
                                &&& (gold.id@ == id@ ==> gnew.rows@.len() == gold.rows@.len()
                                    && forall|r: int|
                                    0 <= r < gnew.rows@.len() ==> (#[trigger] gnew.rows@[r]).tag
                                        == gold.rows@[r].tag && gnew.rows@[r].data@
                                        == shifted_left_row_data(
                                        gold.rows@[r].data@,
                                        gap_chars@,
                                        col as int,
                                    ))
                                &&& (gold.id@ != id@ ==> gnew == gold)
                            }),
                        forall|k: int|
                            gi < k < self.residue_annotations@.len() ==> self.residue_annotations@[k]
                                == old(self).residue_annotations@[k],
                        ({
                            let gnew = self.residue_annotations@[gi as int];
                            let gold = old(self).residue_annotations@[gi as int];
                            &&& gnew.id == gold.id
                            &&& gold.id@ == id@
                            &&& gnew.rows@.len() == gold.rows@.len()
                            &&& forall|r: int|
                                0 <= r < ri ==> (#[trigger] gnew.rows@[r]).tag == gold.rows@[r].tag
                                    && gnew.rows@[r].data@ == shifted_left_row_data(
                                    gold.rows@[r].data@,
                                    gap_chars@,
                                    col as int,
                                )
                            &&& forall|r: int|
                                ri <= r < gnew.rows@.len() ==> gnew.rows@[r] == gold.rows@[r]
                        }),
                        self.file_annotations == old(self).file_annotations,
                        self.sequence_annotations == old(self).sequence_annotations,
                        self.column_annotations == old(self).column_annotations,
                    decreases self.residue_annotations@[gi as int].rows@.len() - ri,
                {
                    let _shifted = shift_chars_left(
                        &mut self.residue_annotations[gi].rows[ri].data,
                        col,
                        gap_chars,
                    );
                    ri += 1;
                }
            }
            gi += 1;
        }
        proof {
            let m1 = row_shifted_left_in(old(self)@, row as int, col as int, gap_chars@);
            assert(self@.sequences =~= m1.sequences);
            assert forall|k: int|
                0 <= k < self@.residue_annotations.len() implies self@.residue_annotations[k]
                == m1.residue_annotations[k] by {
                assert(self@.residue_annotations[k].rows =~= m1.residue_annotations[k].rows);
                assert(self@.residue_annotations[k] =~= m1.residue_annotations[k]);
            }
            assert(self@.residue_annotations =~= m1.residue_annotations);
            assert(self@ =~= m1);
        }
        true
    }

    /// Shift one sequence row right at `col` (consuming its nearest gap to
    /// the right), applying the identical search-and-splice to each of that
    /// sequence's residue annotation rows.  Reports false, without
    /// mutating, when the sequence itself has no gap to consume.
    pub fn shift_row_right(&mut self, row: usize, col: usize, gap_chars: &Vec<char>) -> (r: bool)
        ensures
            r == (row < old(self)@.sequences.len() && can_shift_right(
                old(self)@.sequences[row as int].data,
                gap_chars@,
                col as int,
            )),
            r ==> final(self)@ == row_shifted_right_in(
                old(self)@,
                row as int,
                col as int,
                gap_chars@,
            ),
            !r ==> final(self)@ == old(self)@,
    {
        if row >= self.sequences.len() {
            return false;
        }
        let id = self.sequences[row].id.clone();
        let ok = shift_chars_right(&mut self.sequences[row].data, col, gap_chars);
        if !ok {
            proof {
                assert(self@.sequences =~= old(self)@.sequences);
                assert(self@ =~= old(self)@);
            }
            return false;
        }
        let mut gi: usize = 0;
        while gi < self.residue_annotations.len()
            invariant
                row < old(self).sequences@.len(),
                id == old(self).sequences@[row as int].id,
                gi <= self.residue_annotations@.len(),
                self.sequences@.len() == old(self).sequences@.len(),
                forall|k: int|
                    0 <= k < self.sequences@.len() && k != row ==> self.sequences@[k] == old(
                        self,
                    ).sequences@[k],
                self.sequences@[row as int].id == old(self).sequences@[row as int].id,
                self.sequences@[row as int].data@ == shifted_right_row_data(
                    old(self).sequences@[row as int].data@,
                    gap_chars@,
                    col as int,
                ),
                self.residue_annotations@.len() == old(self).residue_annotations@.len(),
                forall|k: int|
                    0 <= k < gi ==> ({
                        let gnew = #[trigger] self.residue_annotations@[k];
                        let gold = old(self).residue_annotations@[k];
                        &&& gnew.id == gold.id
                        &&& (gold.id@ == id@ ==> gnew.rows@.len() == gold.rows@.len() && forall|
                            r: int,
                        |
                            0 <= r < gnew.rows@.len() ==> (#[trigger] gnew.rows@[r]).tag
                                == gold.rows@[r].tag && gnew.rows@[r].data@
                                == shifted_right_row_data(
                                gold.rows@[r].data@,
                                gap_chars@,
                                col as int,
                            ))
                        &&& (gold.id@ != id@ ==> gnew == gold)
                    }),
                forall|k: int|
                    gi <= k < self.residue_annotations@.len() ==> self.residue_annotations@[k]
                        == old(self).residue_annotations@[k],
                self.file_annotations == old(self).file_annotations,
                self.sequence_annotations == old(self).sequence_annotations,
                self.column_annotations == old(self).column_annotations,
            decreases self.residue_annotations@.len() - gi,
        {
            if self.residue_annotations[gi].id == id {
                let mut ri: usize = 0;
                while ri < self.residue_annotations[gi].rows.len()
                    invariant
                        row < old(self).sequences@.len(),
                        id == old(self).sequences@[row as int].id,
                        gi < self.residue_annotations@.len(),
                        ri <= self.residue_annotations@[gi as int].rows@.len(),
                        self.sequences@.len() == old(self).sequences@.len(),
                        forall|k: int|
                            0 <= k < self.sequences@.len() && k != row ==> self.sequences@[k]
                                == old(self).sequences@[k],
                        self.sequences@[row as int].id == old(self).sequences@[row as int].id,
                        self.sequences@[row as int].data@ == shifted_right_row_data(
                            old(self).sequences@[row as int].data@,
                            gap_chars@,
                            col as int,
                        ),
                        self.residue_annotations@.len() == old(self).residue_annotations@.len(),
                        forall|k: int|
                            0 <= k < gi ==> ({
                                let gnew = #[trigger] self.residue_annotations@[k];
                                let gold = old(self).residue_annotations@[k];
                                &&& gnew.id == gold.id
                                &&& (gold.id@ == id@ ==> gnew.rows@.len() == gold.rows@.len()
                                    && forall|r: int|
                                    0 <= r < gnew.rows@.len() ==> (#[trigger] gnew.rows@[r]).tag
                                        == gold.rows@[r].tag && gnew.rows@[r].data@
                                        == shifted_right_row_data(
                                        gold.rows@[r].data@,
                                        gap_chars@,
                                        col as int,
                                    ))
                                &&& (gold.id@ != id@ ==> gnew == gold)
                            }),
                        forall|k: int|
                            gi < k < self.residue_annotations@.len() ==> self.residue_annotations@[k]
                                == old(self).residue_annotations@[k],
                        ({
                            let gnew = self.residue_annotations@[gi as int];
                            let gold = old(self).residue_annotations@[gi as int];
                            &&& gnew.id == gold.id
                            &&& gold.id@ == id@
                            &&& gnew.rows@.len() == gold.rows@.len()
                            &&& forall|r: int|
                                0 <= r < ri ==> (#[trigger] gnew.rows@[r]).tag == gold.rows@[r].tag
                                    && gnew.rows@[r].data@ == shifted_right_row_data(
                                    gold.rows@[r].data@,
                                    gap_chars@,
                                    col as int,
                                )
                            &&& forall|r: int|
                                ri <= r < gnew.rows@.len() ==> gnew.rows@[r] == gold.rows@[r]
                        }),
                        self.file_annotations == old(self).file_annotations,
                        self.sequence_annotations == old(self).sequence_annotations,
                        self.column_annotations == old(self).column_annotations,
                    decreases self.residue_annotations@[gi as int].rows@.len() - ri,
                {
                    let _shifted = shift_chars_right(
                        &mut self.residue_annotations[gi].rows[ri].data,
                        col,
                        gap_chars,
                    );
                    ri += 1;
                }
            }
            gi += 1;
        }
        proof {
            let m1 = row_shifted_right_in(old(self)@, row as int, col as int, gap_chars@);
            assert(self@.sequences =~= m1.sequences);
            assert forall|k: int|
                0 <= k < self@.residue_annotations.len() implies self@.residue_annotations[k]
                == m1.residue_annotations[k] by {
                assert(self@.residue_annotations[k].rows =~= m1.residue_annotations[k].rows);
                assert(self@.residue_annotations[k] =~= m1.residue_annotations[k]);
            }
            assert(self@.residue_annotations =~= m1.residue_annotations);
            assert(self@ =~= m1);
        }
        true
    }
}

/// Does the sequence row hold a gap symbol at `col`, for every sequence?
/// (Executable form of the all-gaps column check.)
impl Alignment {
    /// Check that every sequence carries a gap symbol at `col`.
    pub fn column_is_all_gaps(&self, col: usize, gap_chars: &Vec<char>) -> (r: bool)
        ensures
            r == self@.column_all_gaps(gap_chars@, col as int),
    {
        let mut c: usize = 0;
        while c < self.sequences.len()
            invariant
                c <= self.sequences@.len(),
                forall|k: int|
                    0 <= k < c ==> ({
                        let d = (#[trigger] self@.sequences[k]).data;
                        0 <= col < d.len() && gap_chars@.contains(d[col as int])
                    }),
            decreases self.sequences@.len() - c,
        {
            if col >= self.sequences[c].data.len() {
                proof {
                    assert(!(col < self@.sequences[c as int].data.len()));
                }
                return false;
            }
            if !char_in(gap_chars, self.sequences[c].data[col]) {
                proof {
                    assert(!gap_chars@.contains(self@.sequences[c as int].data[col as int]));
                }
                return false;
            }
            c += 1;
        }
        true
    }
}

/// The alignment after throwing one row left: the left shift at `col` is
/// repeated while it still finds a gap, never more than `fuel` times.
pub open spec fn thrown_left(
    al: AlignmentModel,
    row: int,
    col: int,
    gaps: Seq<char>,
    fuel: nat,
) -> AlignmentModel
    decreases fuel,
{
    if fuel == 0 {
        al
    } else if 0 <= row < al.sequences.len() && can_shift_left(al.sequences[row].data, gaps, col) {
        thrown_left(row_shifted_left_in(al, row, col, gaps), row, col, gaps, (fuel - 1) as nat)
    } else {
        al
    }
}

/// The alignment after throwing one row right, as for [`thrown_left`].
pub open spec fn thrown_right(
    al: AlignmentModel,
    row: int,
    col: int,
    gaps: Seq<char>,
    fuel: nat,
) -> AlignmentModel
    decreases fuel,
{
    if fuel == 0 {
        al
    } else if 0 <= row < al.sequences.len() && can_shift_right(al.sequences[row].data, gaps, col) {
        thrown_right(row_shifted_right_in(al, row, col, gaps), row, col, gaps, (fuel - 1) as nat)
    } else {
        al
    }
}

/// The throw budget: one shift per column of the row, the width bound that
/// keeps the repeated shift finite.
pub open spec fn throw_budget(al: AlignmentModel, row: int) -> nat {
    if 0 <= row < al.sequences.len() {
        al.sequences[row].data.len()
    } else {
        0
    }
}

impl Alignment {
    /// Repeat the left shift of one row at `col` until no gap is found,
    /// never more often than the row is wide.  Reports whether at least one
    /// shift occurred.
    pub fn throw_row_left(&mut self, row: usize, col: usize, gap_chars: &Vec<char>) -> (r: bool)
        ensures
            r == (row < old(self)@.sequences.len() && can_shift_left(
                old(self)@.sequences[row as int].data,
                gap_chars@,
                col as int,
            )),
            final(self)@ == thrown_left(
                old(self)@,
                row as int,
                col as int,
                gap_chars@,
                throw_budget(old(self)@, row as int),
            ),
    {
        let ghost m0 = self@;
        let mut budget: usize = if row < self.sequences.len() {
            self.sequences[row].data.len()
        } else {
            0
        };
        let ghost fuel0 = budget as nat;
        let mut shifted = false;
        let mut done = false;
        while budget > 0 && !done
            invariant
                fuel0 == throw_budget(m0, row as int),
                budget <= fuel0,
                thrown_left(m0, row as int, col as int, gap_chars@, fuel0) == thrown_left(
                    self@,
                    row as int,
                    col as int,
                    gap_chars@,
                    budget as nat,
                ),
                budget == fuel0 ==> self@ == m0,
                shifted == (budget < fuel0),
                shifted ==> row < m0.sequences.len() && can_shift_left(
                    m0.sequences[row as int].data,
                    gap_chars@,
                    col as int,
                ),
                done ==> !(row < self@.sequences.len() && can_shift_left(
                    self@.sequences[row as int].data,
                    gap_chars@,
                    col as int,
                )),
            decreases budget, (if done { 0int } else { 1int }),
        {
            let ok = self.shift_row_left(row, col, gap_chars);
            if ok {
                shifted = true;
                budget = budget - 1;
            } else {
                done = true;
            }
        }
        proof {
            if row < m0.sequences.len() && can_shift_left(
                m0.sequences[row as int].data,
                gap_chars@,
                col as int,
            ) {
                assert(fuel0 > 0);
            }
        }
        shifted
    }

    /// Repeat the right shift of one row at `col` until no gap is found,
    /// never more often than the row is wide.  Reports whether at least one
    /// shift occurred.
    pub fn throw_row_right(&mut self, row: usize, col: usize, gap_chars: &Vec<char>) -> (r: bool)
        ensures
            r == (row < old(self)@.sequences.len() && can_shift_right(
                old(self)@.sequences[row as int].data,
                gap_chars@,
                col as int,
            )),
            final(self)@ == thrown_right(
                old(self)@,
                row as int,
                col as int,
                gap_chars@,
                throw_budget(old(self)@, row as int),
            ),
    {
        let ghost m0 = self@;
        let mut budget: usize = if row < self.sequences.len() {
            self.sequences[row].data.len()
        } else {
            0
        };
        let ghost fuel0 = budget as nat;
        let mut shifted = false;
        let mut done = false;
        while budget > 0 && !done
            invariant
                fuel0 == throw_budget(m0, row as int),
                budget <= fuel0,
                thrown_right(m0, row as int, col as int, gap_chars@, fuel0) == thrown_right(
                    self@,
                    row as int,
                    col as int,
                    gap_chars@,
                    budget as nat,
                ),
                budget == fuel0 ==> self@ == m0,
                shifted == (budget < fuel0),
                shifted ==> row < m0.sequences.len() && can_shift_right(
                    m0.sequences[row as int].data,
                    gap_chars@,
                    col as int,
                ),
                done ==> !(row < self@.sequences.len() && can_shift_right(
                    self@.sequences[row as int].data,
                    gap_chars@,
                    col as int,
                )),
            decreases budget, (if done { 0int } else { 1int }),
        {
            let ok = self.shift_row_right(row, col, gap_chars);
            if ok {
                shifted = true;
                budget = budget - 1;
            } else {
                done = true;
            }
        }
        proof {
            if row < m0.sequences.len() && can_shift_right(
                m0.sequences[row as int].data,
                gap_chars@,
                col as int,
            ) {
                assert(fuel0 > 0);
            }
        }
        shifted
    }
}

/// The residue annotation groups not keyed by `id`, in their original
/// order.
pub open spec fn residue_groups_without(
    gs: Seq<ResidueAnnotationGroupModel>,
    id: Seq<char>,
) -> Seq<ResidueAnnotationGroupModel>
    decreases gs.len(),
{
    if gs.len() == 0 {
        Seq::empty()
    } else if gs[0].id == id {
        residue_groups_without(gs.drop_first(), id)
    } else {
        seq![gs[0]] + residue_groups_without(gs.drop_first(), id)
    }
}

/// The per-sequence annotation groups not keyed by `id`, in their original
/// order.
pub open spec fn sequence_groups_without(
    gs: Seq<SequenceAnnotationGroupModel>,
    id: Seq<char>,
) -> Seq<SequenceAnnotationGroupModel>
    decreases gs.len(),
{
    if gs.len() == 0 {
        Seq::empty()
    } else if gs[0].id == id {
        sequence_groups_without(gs.drop_first(), id)
    } else {
        seq![gs[0]] + sequence_groups_without(gs.drop_first(), id)
    }
}

/// No group keyed by `id` survives the filter.
pub proof fn lemma_residue_groups_without(gs: Seq<ResidueAnnotationGroupModel>, id: Seq<char>)
    ensures
        forall|k: int|
            0 <= k < residue_groups_without(gs, id).len() ==> (#[trigger] residue_groups_without(
                gs,
                id,
            )[k]).id != id,
    decreases gs.len(),
{
    if gs.len() > 0 {
        lemma_residue_groups_without(gs.drop_first(), id);
        let rest = residue_groups_without(gs.drop_first(), id);
        if gs[0].id != id {
            assert forall|k: int|
                0 <= k < residue_groups_without(gs, id).len() implies (
            #[trigger] residue_groups_without(gs, id)[k]).id != id by {
                if k == 0 {
                    assert(residue_groups_without(gs, id)[0] == gs[0]);
                } else {
                    assert(residue_groups_without(gs, id)[k] == rest[k - 1]);
                    assert(rest[k - 1].id != id);
                }
            }
        } else {
            assert forall|k: int|
                0 <= k < residue_groups_without(gs, id).len() implies (
            #[trigger] residue_groups_without(gs, id)[k]).id != id by {
                assert(residue_groups_without(gs, id)[k] == rest[k]);
                assert(rest[k].id != id);
            }
        }
    }
}

/// No group keyed by `id` survives the filter.
pub proof fn lemma_sequence_groups_without(gs: Seq<SequenceAnnotationGroupModel>, id: Seq<char>)
    ensures
        forall|k: int|
            0 <= k < sequence_groups_without(gs, id).len() ==> (#[trigger] sequence_groups_without(
                gs,
                id,
            )[k]).id != id,
    decreases gs.len(),
{
    if gs.len() > 0 {
        lemma_sequence_groups_without(gs.drop_first(), id);
        let rest = sequence_groups_without(gs.drop_first(), id);
        if gs[0].id != id {
            assert forall|k: int|
                0 <= k < sequence_groups_without(gs, id).len() implies (
            #[trigger] sequence_groups_without(gs, id)[k]).id != id by {
                if k == 0 {
                    assert(sequence_groups_without(gs, id)[0] == gs[0]);
                } else {
                    assert(sequence_groups_without(gs, id)[k] == rest[k - 1]);
                    assert(rest[k - 1].id != id);
                }
            }
        } else {
            assert forall|k: int|
                0 <= k < sequence_groups_without(gs, id).len() implies (
            #[trigger] sequence_groups_without(gs, id)[k]).id != id by {
                assert(sequence_groups_without(gs, id)[k] == rest[k]);
                assert(rest[k].id != id);
            }
        }
    }
}

/// The alignment with the sequence at `row` removed, together with every
/// annotation group keyed by its identifier.
pub open spec fn sequence_removed(al: AlignmentModel, row: int) -> AlignmentModel {
    if 0 <= row < al.sequences.len() {
        let id = al.sequences[row].id;
        AlignmentModel {
            sequences: al.sequences.remove(row),
            sequence_annotations: sequence_groups_without(al.sequence_annotations, id),
            residue_annotations: residue_groups_without(al.residue_annotations, id),
            ..al
        }
    } else {
        al
    }
}

/// Referential integrity of a deletion: no annotation group keyed by the
/// removed sequence's identifier remains in the alignment.
pub proof fn lemma_delete_sequence_integrity(al: AlignmentModel, row: int)
    requires
        0 <= row < al.sequences.len(),
    ensures
        ({
            let id = al.sequences[row].id;
            let m = sequence_removed(al, row);
            &&& forall|k: int|
                0 <= k < m.sequence_annotations.len() ==> (#[trigger] m.sequence_annotations[k]).id
                    != id
            &&& forall|k: int|
                0 <= k < m.residue_annotations.len() ==> (#[trigger] m.residue_annotations[k]).id
                    != id
        }),
{
    let id = al.sequences[row].id;
    lemma_sequence_groups_without(al.sequence_annotations, id);
    lemma_residue_groups_without(al.residue_annotations, id);
}

impl Alignment {
    /// Remove the sequence at `row` together with every per-sequence and
    /// per-residue annotation group keyed by its identifier.  An
    /// out-of-range row is ignored.
    pub fn remove_sequence(&mut self, row: usize) -> (r: bool)
        ensures
            r == (row < old(self)@.sequences.len()),
            final(self)@ == sequence_removed(old(self)@, row as int),
    {
        if row >= self.sequences.len() {
            return false;
        }
        let id = self.sequences[row].id.clone();
        self.sequences.remove(row);
        let ghost old_seq_groups = old(self)@.sequence_annotations;
        let mut kept_seq: Vec<SequenceAnnotationGroup> = Vec::new();
        let mut i: usize = 0;
        proof {
            assert(old_seq_groups.skip(0) =~= old_seq_groups);
            assert(kept_seq@.map_values(|g: SequenceAnnotationGroup| g@) + sequence_groups_without(
                old_seq_groups.skip(0),
                id@,
            ) =~= sequence_groups_without(old_seq_groups, id@));
        }
        while i < self.sequence_annotations.len()
            invariant
                id == old(self).sequences@[row as int].id,
                i <= self.sequence_annotations@.len(),
                self.sequence_annotations == old(self).sequence_annotations,
                old_seq_groups == old(self)@.sequence_annotations,
                sequence_groups_without(old_seq_groups, id@) == kept_seq@.map_values(
                    |g: SequenceAnnotationGroup| g@,
                ) + sequence_groups_without(old_seq_groups.skip(i as int), id@),
            decreases self.sequence_annotations@.len() - i,
        {
            proof {
                assert(old_seq_groups.skip(i as int).drop_first() =~= old_seq_groups.skip(
                    i as int + 1,
                ));
                assert(old_seq_groups.skip(i as int)[0] == old_seq_groups[i as int]);
            }
            if !(self.sequence_annotations[i].id == id) {
                kept_seq.push(self.sequence_annotations[i].clone());
                proof {
                    assert(kept_seq@.map_values(|g: SequenceAnnotationGroup| g@)
                        =~= kept_seq@.map_values(|g: SequenceAnnotationGroup| g@));
                    assert(sequence_groups_without(old_seq_groups.skip(i as int), id@) == seq![
                        old_seq_groups[i as int],
                    ] + sequence_groups_without(old_seq_groups.skip(i as int + 1), id@));
                    assert(sequence_groups_without(old_seq_groups, id@) =~= kept_seq@.map_values(
                        |g: SequenceAnnotationGroup| g@,
                    ) + sequence_groups_without(old_seq_groups.skip(i as int + 1), id@));
                }
            }
            i += 1;
        }
        proof {
            assert(old_seq_groups.skip(self.sequence_annotations@.len() as int)
                =~= Seq::<SequenceAnnotationGroupModel>::empty());
            assert(sequence_groups_without(old_seq_groups, id@) =~= kept_seq@.map_values(
                |g: SequenceAnnotationGroup| g@,
            ));
        }
        self.sequence_annotations = kept_seq;
        let ghost old_res_groups = old(self)@.residue_annotations;
        let mut kept_res: Vec<ResidueAnnotationGroup> = Vec::new();
        let mut j: usize = 0;
        proof {
            assert(old_res_groups.skip(0) =~= old_res_groups);
            assert(kept_res@.map_values(|g: ResidueAnnotationGroup| g@) + residue_groups_without(
                old_res_groups.skip(0),
                id@,
            ) =~= residue_groups_without(old_res_groups, id@));
        }
        while j < self.residue_annotations.len()
            invariant
                id == old(self).sequences@[row as int].id,
                j <= self.residue_annotations@.len(),
                self.residue_annotations == old(self).residue_annotations,
                old_res_groups == old(self)@.residue_annotations,
                residue_groups_without(old_res_groups, id@) == kept_res@.map_values(
                    |g: ResidueAnnotationGroup| g@,
                ) + residue_groups_without(old_res_groups.skip(j as int), id@),
            decreases self.residue_annotations@.len() - j,
        {
            proof {
                assert(old_res_groups.skip(j as int).drop_first() =~= old_res_groups.skip(
                    j as int + 1,
                ));
                assert(old_res_groups.skip(j as int)[0] == old_res_groups[j as int]);
            }
            if !(self.residue_annotations[j].id == id) {
                kept_res.push(self.residue_annotations[j].clone());
                proof {
                    assert(residue_groups_without(old_res_groups.skip(j as int), id@) == seq![
                        old_res_groups[j as int],
                    ] + residue_groups_without(old_res_groups.skip(j as int + 1), id@));
                    assert(residue_groups_without(old_res_groups, id@) =~= kept_res@.map_values(
                        |g: ResidueAnnotationGroup| g@,
                    ) + residue_groups_without(old_res_groups.skip(j as int + 1), id@));
                }
            }
            j += 1;
        }
        proof {
            assert(old_res_groups.skip(self.residue_annotations@.len() as int)
                =~= Seq::<ResidueAnnotationGroupModel>::empty());
            assert(residue_groups_without(old_res_groups, id@) =~= kept_res@.map_values(
                |g: ResidueAnnotationGroup| g@,
            ));
        }
        self.residue_annotations = kept_res;
        proof {
            let m1 = sequence_removed(old(self)@, row as int);
            assert(self@.sequences =~= m1.sequences);
            assert(self@.sequence_annotations =~= m1.sequence_annotations);
            assert(self@.residue_annotations =~= m1.residue_annotations);
            assert(self@ =~= m1);
        }
        true
    }
}

/// How one symbol is rewritten by the whole-alignment case and alphabet
/// conversions.
#[derive(Clone, Copy)]
pub enum CharTransform {
    /// Map ASCII lower-case letters to upper case.
    Uppercase,
    /// Map ASCII upper-case letters to lower case.
    Lowercase,
    /// Rewrite `T`/`t` as `U`/`u`.
    ThymineToUracil,
    /// Rewrite `U`/`u` as `T`/`t`.
    UracilToThymine,
}

/// An ASCII lower-case letter mapped to upper case; anything else is kept.
pub open spec fn ascii_upper(c: char) -> char {
    if 'a' as u32 <= c as u32 && c as u32 <= 'z' as u32 {
        ((c as u32 - 32) as u8) as char
    } else {
        c
    }
}

/// An ASCII upper-case letter mapped to lower case; anything else is kept.
pub open spec fn ascii_lower(c: char) -> char {
    if 'A' as u32 <= c as u32 && c as u32 <= 'Z' as u32 {
        ((c as u32 + 32) as u8) as char
    } else {
        c
    }
}

/// What [`CharTransform`] does to one symbol.
pub open spec fn transform_char(t: CharTransform, c: char) -> char {
    match t {
        CharTransform::Uppercase => ascii_upper(c),
        CharTransform::Lowercase => ascii_lower(c),
        CharTransform::ThymineToUracil => if c == 'T' {
            'U'
        } else if c == 't' {
            'u'
        } else {
            c
        },
        CharTransform::UracilToThymine => if c == 'U' {
            'T'
        } else if c == 'u' {
            't'
        } else {
            c
        },
    }
}

/// Apply a [`CharTransform`] to one symbol.
pub fn apply_transform(t: CharTransform, c: char) -> (r: char)
    ensures
        r == transform_char(t, c),
{
    match t {
        CharTransform::Uppercase => {
            let u = c as u32;
            if 97 <= u && u <= 122 {
                ((u - 32) as u8) as char
            } else {
                c
            }
        },
        CharTransform::Lowercase => {
            let u = c as u32;
            if 65 <= u && u <= 90 {
                ((u + 32) as u8) as char
            } else {
                c
            }
        },
        CharTransform::ThymineToUracil => {
            if c == 'T' {
                'U'
            } else if c == 't' {
                'u'
            } else {
                c
            }
        },
        CharTransform::UracilToThymine => {
            if c == 'U' {
                'T'
            } else if c == 'u' {
                't'
            } else {
                c
            }
        },
    }
}

/// The alignment with every sequence symbol rewritten by `t`; annotations
/// and identifiers stay as they are.
pub open spec fn sequences_transformed(al: AlignmentModel, t: CharTransform) -> AlignmentModel {
    AlignmentModel {
        sequences: al.sequences.map_values(
            |s: SequenceModel| SequenceModel {
                id: s.id,
                data: s.data.map_values(|c: char| transform_char(t, c)),
            },
        ),
        ..al
    }
}

impl Alignment {
    /// Rewrite every sequence symbol with `t` (case folding or the
    /// `T`/`U` alphabet conversions).
    pub fn transform_sequence_data(&mut self, t: CharTransform)
        ensures
            final(self)@ == sequences_transformed(old(self)@, t),
    {
        let mut i: usize = 0;
        while i < self.sequences.len()
            invariant
                i <= self.sequences@.len(),
                self.sequences@.len() == old(self).sequences@.len(),
                forall|k: int|
                    0 <= k < i ==> (#[trigger] self.sequences@[k]).id == old(
                        self,
                    ).sequences@[k].id && self.sequences@[k].data@ == old(
                        self,
                    ).sequences@[k].data@.map_values(|c: char| transform_char(t, c)),
                forall|k: int|
                    i <= k < self.sequences@.len() ==> self.sequences@[k] == old(
                        self,
                    ).sequences@[k],
                self.file_annotations == old(self).file_annotations,
                self.sequence_annotations == old(self).sequence_annotations,
                self.column_annotations == old(self).column_annotations,
                self.residue_annotations == old(self).residue_annotations,
            decreases self.sequences@.len() - i,
        {
            let mut j: usize = 0;
            while j < self.sequences[i].data.len()
                invariant
                    i < self.sequences@.len(),
                    j <= self.sequences@[i as int].data@.len(),
                    self.sequences@.len() == old(self).sequences@.len(),
                    forall|k: int|
                        0 <= k < i ==> (#[trigger] self.sequences@[k]).id == old(
                            self,
                        ).sequences@[k].id && self.sequences@[k].data@ == old(
                            self,
                        ).sequences@[k].data@.map_values(|c: char| transform_char(t, c)),
                    forall|k: int|
                        i < k < self.sequences@.len() ==> self.sequences@[k] == old(
                            self,
                        ).sequences@[k],
                    self.sequences@[i as int].id == old(self).sequences@[i as int].id,
                    self.sequences@[i as int].data@.len() == old(
                        self,
                    ).sequences@[i as int].data@.len(),
                    forall|q: int|
                        0 <= q < j ==> self.sequences@[i as int].data@[q] == transform_char(
                            t,
                            old(self).sequences@[i as int].data@[q],
                        ),
                    forall|q: int|
                        j <= q < self.sequences@[i as int].data@.len()
                            ==> self.sequences@[i as int].data@[q] == old(
                            self,
                        ).sequences@[i as int].data@[q],
                    self.file_annotations == old(self).file_annotations,
                    self.sequence_annotations == old(self).sequence_annotations,
                    self.column_annotations == old(self).column_annotations,
                    self.residue_annotations == old(self).residue_annotations,
                decreases self.sequences@[i as int].data@.len() - j,
            {
                let c = self.sequences[i].data[j];
                self.sequences[i].data[j] = apply_transform(t, c);
                j += 1;
            }
            proof {
                assert(self.sequences@[i as int].data@ =~= old(
                    self,
                ).sequences@[i as int].data@.map_values(|c: char| transform_char(t, c)));
            }
            i += 1;
        }
        proof {
            let m1 = sequences_transformed(old(self)@, t);
            assert(self@.sequences =~= m1.sequences);
            assert(self@ =~= m1);
        }
    }
}

impl Default for Alignment {
    /// The empty alignment.
    fn default() -> (r: Self)
        ensures
            r@.file_annotations.len() == 0,
            r@.sequences.len() == 0,
            r@.sequence_annotations.len() == 0,
            r@.column_annotations.len() == 0,
            r@.residue_annotations.len() == 0,
    {
        Alignment::new()
    }
}

impl Clone for Alignment {
    /// A deep copy of the alignment and everything in it.
    fn clone(&self) -> (r: Self)
        ensures
            r@ == self@,
    {
        let mut file_annotations: Vec<FileAnnotation> = Vec::new();
        let mut i: usize = 0;
        while i < self.file_annotations.len()
            invariant
                i <= self.file_annotations@.len(),
                file_annotations@.len() == i as int,
                forall|k: int|
                    0 <= k < i ==> (#[trigger] file_annotations@[k])@ == self.file_annotations@[k]@,
            decreases self.file_annotations@.len() - i,
        {
            file_annotations.push(self.file_annotations[i].clone());
            i += 1;
        }
        let mut sequences: Vec<Sequence> = Vec::new();
        let mut j: usize = 0;
        while j < self.sequences.len()
            invariant
                j <= self.sequences@.len(),
                sequences@.len() == j as int,
                forall|k: int| 0 <= k < j ==> (#[trigger] sequences@[k])@ == self.sequences@[k]@,
            decreases self.sequences@.len() - j,
        {
            sequences.push(self.sequences[j].clone());
            j += 1;
        }
        let mut sequence_annotations: Vec<SequenceAnnotationGroup> = Vec::new();
        let mut g: usize = 0;
        while g < self.sequence_annotations.len()
            invariant
                g <= self.sequence_annotations@.len(),
                sequence_annotations@.len() == g as int,
                forall|k: int|
                    0 <= k < g ==> (#[trigger] sequence_annotations@[k])@
                        == self.sequence_annotations@[k]@,
            decreases self.sequence_annotations@.len() - g,
        {
            sequence_annotations.push(self.sequence_annotations[g].clone());
            g += 1;
        }
        let mut column_annotations: Vec<ColumnAnnotation> = Vec::new();
        let mut c: usize = 0;
        while c < self.column_annotations.len()
            invariant
                c <= self.column_annotations@.len(),
                column_annotations@.len() == c as int,
                forall|k: int|
                    0 <= k < c ==> (#[trigger] column_annotations@[k])@
                        == self.column_annotations@[k]@,
            decreases self.column_annotations@.len() - c,
        {
            column_annotations.push(self.column_annotations[c].clone());
            c += 1;
        }
        let mut residue_annotations: Vec<ResidueAnnotationGroup> = Vec::new();
        let mut q: usize = 0;
        while q < self.residue_annotations.len()
            invariant
                q <= self.residue_annotations@.len(),
                residue_annotations@.len() == q as int,
                forall|k: int|
                    0 <= k < q ==> (#[trigger] residue_annotations@[k])@
                        == self.residue_annotations@[k]@,
            decreases self.residue_annotations@.len() - q,
        {
            residue_annotations.push(self.residue_annotations[q].clone());
            q += 1;
        }
        let r = Alignment {
            file_annotations,
            sequences,
            sequence_annotations,
            column_annotations,
            residue_annotations,
        };
        proof {
            assert(r@.file_annotations =~= self@.file_annotations);
            assert(r@.sequences =~= self@.sequences);
            assert(r@.sequence_annotations =~= self@.sequence_annotations);
            assert(r@.column_annotations =~= self@.column_annotations);
            assert(r@.residue_annotations =~= self@.residue_annotations);
            assert(r@ =~= self@);
        }
        r
    }
}

/// Transforming every data row with a width-preserving map keeps the
/// alignment rectangular.
pub proof fn lemma_rows_mapped_rectangular(
    al: AlignmentModel,
    f: spec_fn(Seq<char>) -> Seq<char>,
    w2: int,
)
    requires
        al.rectangular(),
        forall|d: Seq<char>| d.len() == al.width() ==> (#[trigger] f(d)).len() == w2,
        al.sequences.len() > 0 || w2 == 0,
    ensures
        rows_mapped(al, f).rectangular(),
{
    let m = rows_mapped(al, f);
    if al.sequences.len() == 0 {
        assert(m.sequences.len() == 0);
        assert(m.width() == 0);
        assert forall|i: int| 0 <= i < m.column_annotations.len() implies (
        #[trigger] m.column_annotations[i]).data.len() == m.width() by {
            assert(al.column_annotations[i].data.len() == al.width());
        }
        assert forall|i: int, j: int|
            0 <= i < m.residue_annotations.len() && 0 <= j
                < m.residue_annotations[i].rows.len() implies (
        #[trigger] m.residue_annotations[i].rows[j]).data.len() == m.width() by {
            assert(al.residue_annotations[i].rows[j].data.len() == al.width());
        }
    } else {
        assert(al.sequences[0].data.len() == al.width());
        assert(m.sequences[0].data == f(al.sequences[0].data));
        assert(m.width() == w2);
        assert forall|i: int| 0 <= i < m.sequences.len() implies (
        #[trigger] m.sequences[i]).data.len() == m.width() by {
            assert(al.sequences[i].data.len() == al.width());
        }
        assert forall|i: int| 0 <= i < m.column_annotations.len() implies (
        #[trigger] m.column_annotations[i]).data.len() == m.width() by {
            assert(al.column_annotations[i].data.len() == al.width());
        }
        assert forall|i: int, j: int|
            0 <= i < m.residue_annotations.len() && 0 <= j
                < m.residue_annotations[i].rows.len() implies (
        #[trigger] m.residue_annotations[i].rows[j]).data.len() == m.width() by {
            assert(al.residue_annotations[i].rows[j].data.len() == al.width());
        }
    }
}

/// Inserting a gap column preserves rectangularity.  (The one excluded
/// corner: an alignment with no sequences but annotation rows present,
/// where an insertion at column 0 would lengthen the annotations while the
/// derived width stays 0.)
pub proof fn lemma_insert_gap_column_rectangular(al: AlignmentModel, col: int, c: char)
    requires
        al.rectangular(),
        al.sequences.len() > 0 || col != 0,
    ensures
        al.with_gap_column(col, c).rectangular(),
{
    let f = |d: Seq<char>| col_inserted(d, col, c);
    let w2: int = if 0 <= col <= al.width() {
        al.width() + 1
    } else {
        al.width()
    };
    lemma_rows_mapped_rectangular(al, f, w2);
}

/// Deleting a column preserves rectangularity.
pub proof fn lemma_delete_gap_column_rectangular(al: AlignmentModel, col: int)
    requires
        al.rectangular(),
    ensures
        al.without_column(col).rectangular(),
{
    let f = |d: Seq<char>| col_removed(d, col);
    let w2: int = if 0 <= col < al.width() {
        al.width() - 1
    } else {
        al.width()
    };
    lemma_rows_mapped_rectangular(al, f, w2);
}

} // verus!
