//! Memoization of the pairing resolver against the structure annotation.
//!
//! The cache keys the resolver's output on the exact structure string it
//! was computed from.  It never refreshes itself: callers ask `is_valid_for`
//! and invoke `update` after any edit that may have changed the structure
//! annotation, so the data flow stays auditable.

use vstd::prelude::*;

use crate::chars::vec_chars_eq;
use crate::pairing::malformed_columns;
use crate::pairing::resolve;
use crate::pairing::scan_result;
use crate::pairing::spec_pair;
use crate::pairing::table_matches;
use crate::pairing::PairTable;

verus! {

/// The malformed-structure condition: the columns whose bracket symbols
/// could not be matched (unmatched closers in scan order, then unmatched
/// openers channel by channel).
pub struct MalformedStructure {
    pub columns: Vec<usize>,
}

/// The pairing resolver's output, memoized against the structure string it
/// was built from; valid only while that string is still the alignment's
/// current structure annotation.
pub struct StructureCache {
    source: Vec<char>,
    table: PairTable,
}

impl StructureCache {
    /// The structure string the memoized table was computed from.
    pub closed spec fn source_view(self) -> Seq<char> {
        self.source@
    }

    /// The memoized pair table.
    pub closed spec fn table_view(self) -> Seq<Option<usize>> {
        self.table.pairs@
    }

    /// Cache coherence: the memoized table is exactly the resolution of the
    /// memoized source string.
    #[verifier::type_invariant]
    pub closed spec fn wf(self) -> bool {
        table_matches(self.table.pairs@, self.source@)
    }

    /// Create a cache for the empty structure string.
    pub fn new() -> (r: Self)
        ensures
            r.source_view().len() == 0,
    {
        StructureCache { source: Vec::new(), table: PairTable { pairs: Vec::new() } }
    }

    /// Is the memoized table still the pairing of `current_source`?
    pub fn is_valid_for(&self, current_source: &Vec<char>) -> (r: bool)
        ensures
            r == (current_source@ == self.source_view()),
    {
        vec_chars_eq(current_source, &self.source)
    }

    /// Run the pairing resolver on `current_source` and memoize the result,
    /// reporting the malformed columns (if any) without discarding the
    /// computed table.
    pub fn update(&mut self, current_source: &Vec<char>) -> (r: Result<(), MalformedStructure>)
        ensures
            final(self).source_view() == current_source@,
            table_matches(final(self).table_view(), current_source@),
            (match r {
                Ok(()) => malformed_columns(current_source@).len() == 0,
                Err(m) => m.columns@.map_values(|x: usize| x as int) == malformed_columns(
                    current_source@,
                ) && malformed_columns(current_source@).len() > 0,
            }),
    {
        let resolution = resolve(current_source);
        let source = current_source.clone();
        proof {
            assert(source@ =~= current_source@);
        }
        *self = StructureCache { source, table: resolution.table };
        if resolution.malformed.len() == 0 {
            proof {
                assert(resolution.malformed@.map_values(|x: usize| x as int) =~= malformed_columns(
                    current_source@,
                ));
            }
            Ok(())
        } else {
            Err(MalformedStructure { columns: resolution.malformed })
        }
    }

    /// The partner of `col` in the memoized table; nothing when `col` is
    /// unpaired or out of range.
    pub fn get_pair(&self, col: usize) -> (r: Option<usize>)
        ensures
            (match spec_pair(self.source_view(), col as int) {
                Some(j) => r matches Some(rj) && rj as int == j,
                None => r is None,
            }),
    {
        proof {
            use_type_invariant(self);
        }
        if col < self.table.pairs.len() {
            self.table.pairs[col]
        } else {
            None
        }
    }

    /// Is `col` paired with some other column?
    pub fn is_paired(&self, col: usize) -> (r: bool)
        ensures
            r == (spec_pair(self.source_view(), col as int) is Some),
    {
        self.get_pair(col).is_some()
    }
}

} // verus!
