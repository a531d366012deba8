use vstd::prelude::*;

use crate::matching::{views_of, Pattern, PatternView};

verus! {

/// Fixed overhead, in bytes, of any scratch region, before the per-pattern
/// working state is added.
pub const SCRATCH_BASE_BYTES: usize = 2381;

/// The unclamped scratch demand of a pattern list: the fixed overhead plus
/// one byte of working state per literal byte.
pub open spec fn requirement_total(pats: Seq<PatternView>) -> nat
    decreases pats.len(),
{
    if pats.len() == 0 {
        SCRATCH_BASE_BYTES as nat
    } else {
        requirement_total(pats.drop_last()) + pats.last().literal.len()
    }
}

/// How many scratch bytes a database with patterns `pats` demands of any
/// scratch region used to scan against it, clamped to what a machine word
/// can state.
pub open spec fn scratch_requirement(pats: Seq<PatternView>) -> usize {
    if requirement_total(pats) > usize::MAX {
        usize::MAX
    } else {
        requirement_total(pats) as usize
    }
}

/// A scratch demand is never zero: the fixed overhead alone is positive.
pub proof fn lemma_requirement_positive(pats: Seq<PatternView>)
    ensures
        scratch_requirement(pats) >= SCRATCH_BASE_BYTES,
    decreases pats.len(),
{
    if pats.len() > 0 {
        lemma_requirement_positive(pats.drop_last());
    }
}

/// A compiled database handle: an immutable matching automaton, produced by
/// the external compilation component and only consumed here.
pub trait Database: Sized {
    /// The pattern set the database was built from.
    spec fn patterns(&self) -> Seq<PatternView>;

    /// The scratch demand of this database, as the allocator reads it.
    fn scratch_requirement(&self) -> (n: usize)
        ensures
            n == scratch_requirement(self.patterns()),
    ;
}

/// Computes the clamped scratch demand of a pattern list.
pub(crate) fn compute_requirement(patterns: &Vec<Pattern>) -> (n: usize)
    ensures
        n == scratch_requirement(views_of(patterns@)),
{
    let ghost pats = views_of(patterns@);
    let mut acc: usize = SCRATCH_BASE_BYTES;
    let mut i: usize = 0;
    while i < patterns.len()
        invariant
            i <= patterns@.len(),
            pats == views_of(patterns@),
            acc == scratch_requirement(pats.take(i as int)),
        decreases patterns@.len() - i,
    {
        proof {
            assert(pats.take(i + 1).drop_last() =~= pats.take(i as int));
            assert(pats.take(i + 1).last() == pats[i as int]);
        }
        acc = acc.saturating_add(patterns[i].literal.len());
        i += 1;
    }
    proof {
        assert(pats.take(pats.len() as int) =~= pats);
    }
    acc
}

/// A database compiled for single-buffer (block) scanning.
pub struct BlockDatabase {
    pub(crate) patterns: Vec<Pattern>,
}

/// A database compiled for scanning a list of buffers as one logical stream.
pub struct VectoredDatabase {
    pub(crate) patterns: Vec<Pattern>,
}

/// A database compiled for stateful scanning across sequential chunks.
pub struct StreamingDatabase {
    pub(crate) patterns: Vec<Pattern>,
}

impl BlockDatabase {
    /// Wraps a pattern set handed over by the compilation component.
    pub fn new(patterns: Vec<Pattern>) -> (r: Self)
        ensures
            r.patterns() == views_of(patterns@),
    {
        BlockDatabase { patterns }
    }
}

impl Database for BlockDatabase {
    closed spec fn patterns(&self) -> Seq<PatternView> {
        views_of(self.patterns@)
    }

    fn scratch_requirement(&self) -> (n: usize) {
        compute_requirement(&self.patterns)
    }
}

impl BlockDatabase {
    pub(crate) proof fn patterns_def(&self)
        ensures
            self.patterns() == views_of(self.patterns@),
    {
    }
}

impl VectoredDatabase {
    /// Wraps a pattern set handed over by the compilation component.
    pub fn new(patterns: Vec<Pattern>) -> (r: Self)
        ensures
            r.patterns() == views_of(patterns@),
    {
        VectoredDatabase { patterns }
    }
}

impl Database for VectoredDatabase {
    closed spec fn patterns(&self) -> Seq<PatternView> {
        views_of(self.patterns@)
    }

    fn scratch_requirement(&self) -> (n: usize) {
        compute_requirement(&self.patterns)
    }
}

impl VectoredDatabase {
    pub(crate) proof fn patterns_def(&self)
        ensures
            self.patterns() == views_of(self.patterns@),
    {
    }
}

impl StreamingDatabase {
    /// Wraps a pattern set handed over by the compilation component.
    pub fn new(patterns: Vec<Pattern>) -> (r: Self)
        ensures
            r.patterns() == views_of(patterns@),
    {
        StreamingDatabase { patterns }
    }
}

impl Database for StreamingDatabase {
    closed spec fn patterns(&self) -> Seq<PatternView> {
        views_of(self.patterns@)
    }

    fn scratch_requirement(&self) -> (n: usize) {
        compute_requirement(&self.patterns)
    }
}

impl StreamingDatabase {
    pub(crate) proof fn patterns_def(&self)
        ensures
            self.patterns() == views_of(self.patterns@),
    {
    }
}

} // verus!
