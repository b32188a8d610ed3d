//! What a bulk import reports: counts, durations and error labels, by phase and in total.

use vstd::prelude::*;
use crate::text::texts;

verus! {

/// The figures of one phase of an import.
#[derive(Debug, PartialEq, Eq)]
pub struct MigrationPhaseMetrics {
    pub num_processed: u64,
    pub num_succeeded: u64,
    pub num_failed: u64,
    /// Milliseconds.
    pub total_duration: u128,
    /// The labels of the errors, in the order in which they came.
    pub errors: Vec<String>,
}

/// The figures of an import: those of its two phases and the totals.
#[derive(Debug, PartialEq, Eq)]
pub struct MigrationMetrics {
    pub fixup_phase: MigrationPhaseMetrics,
    pub insert_phase: MigrationPhaseMetrics,
    pub num_processed: u64,
    pub num_succeeded: u64,
    pub num_failed: u64,
    /// Milliseconds.
    pub total_duration: u128,
    /// The labels of the errors of the fix-up phase, then those of the insert phase.
    pub errors: Vec<String>,
}

/// The mathematical value of a [`MigrationPhaseMetrics`].
pub struct PhaseView {
    pub num_processed: u64,
    pub num_succeeded: u64,
    pub num_failed: u64,
    pub total_duration: u128,
    pub errors: Seq<Seq<char>>,
}

/// The mathematical value of a [`MigrationMetrics`].
pub struct MetricsView {
    pub fixup_phase: PhaseView,
    pub insert_phase: PhaseView,
    pub num_processed: u64,
    pub num_succeeded: u64,
    pub num_failed: u64,
    pub total_duration: u128,
    pub errors: Seq<Seq<char>>,
}

impl View for MigrationPhaseMetrics {
    type V = PhaseView;

    open spec fn view(&self) -> PhaseView {
        PhaseView {
            num_processed: self.num_processed,
            num_succeeded: self.num_succeeded,
            num_failed: self.num_failed,
            total_duration: self.total_duration,
            errors: texts(self.errors@),
        }
    }
}

impl View for MigrationMetrics {
    type V = MetricsView;

    open spec fn view(&self) -> MetricsView {
        MetricsView {
            fixup_phase: self.fixup_phase@,
            insert_phase: self.insert_phase@,
            num_processed: self.num_processed,
            num_succeeded: self.num_succeeded,
            num_failed: self.num_failed,
            total_duration: self.total_duration,
            errors: texts(self.errors@),
        }
    }
}

/// A phase in which nothing happened.
pub open spec fn blank_phase() -> PhaseView {
    PhaseView {
        num_processed: 0,
        num_succeeded: 0,
        num_failed: 0,
        total_duration: 0,
        errors: Seq::empty(),
    }
}

/// An import in which nothing happened.
pub open spec fn blank_metrics() -> MetricsView {
    MetricsView {
        fixup_phase: blank_phase(),
        insert_phase: blank_phase(),
        num_processed: 0,
        num_succeeded: 0,
        num_failed: 0,
        total_duration: 0,
        errors: Seq::empty(),
    }
}

/// The time that the insert phase took: what passed in all, less what the fix-up phase took,
/// and nothing where the fix-up phase is said to have taken longer than all.
pub open spec fn insert_duration(fixup_ms: u128, elapsed_ms: u128) -> u128 {
    if elapsed_ms >= fixup_ms {
        (elapsed_ms - fixup_ms) as u128
    } else {
        0
    }
}

/// The figures of an import of `total` logins of which those in `fixup_errors` failed in the
/// fix-up phase and those in `insert_errors` in the insert phase, where the fix-up phase took
/// `fixup_ms` of the `elapsed_ms` that passed. Every login goes through the fix-up phase;
/// those that pass it go through the insert phase; the totals count a login as failed that
/// failed in either.
pub open spec fn metrics_of(
    total: u64,
    fixup_errors: Seq<Seq<char>>,
    insert_errors: Seq<Seq<char>>,
    fixup_ms: u128,
    elapsed_ms: u128,
) -> MetricsView {
    let insert_ms = insert_duration(fixup_ms, elapsed_ms);
    MetricsView {
        fixup_phase: PhaseView {
            num_processed: total,
            num_succeeded: (total - fixup_errors.len()) as u64,
            num_failed: fixup_errors.len() as u64,
            total_duration: fixup_ms,
            errors: fixup_errors,
        },
        insert_phase: PhaseView {
            num_processed: (total - fixup_errors.len()) as u64,
            num_succeeded: (total - fixup_errors.len() - insert_errors.len()) as u64,
            num_failed: insert_errors.len() as u64,
            total_duration: insert_ms,
            errors: insert_errors,
        },
        num_processed: total,
        num_succeeded: (total - fixup_errors.len() - insert_errors.len()) as u64,
        num_failed: (fixup_errors.len() + insert_errors.len()) as u64,
        total_duration: (fixup_ms + insert_ms) as u128,
        errors: fixup_errors + insert_errors,
    }
}

/// Whether the figures `m` of an import of `total` logins add up: every login goes through
/// the fix-up phase, what passes it goes through the insert phase, each phase splits what it
/// processed into what succeeded and what failed, as many errors are kept as logins failed,
/// and the totals count as failed what failed in either phase, with the errors of the fix-up
/// phase before those of the insert phase.
pub open spec fn add_up(m: MetricsView, total: int) -> bool {
    &&& m.num_processed == total
    &&& m.fixup_phase.num_processed == total
    &&& m.fixup_phase.num_succeeded == total - m.fixup_phase.num_failed
    &&& m.fixup_phase.num_failed == m.fixup_phase.errors.len()
    &&& m.insert_phase.num_processed == m.fixup_phase.num_succeeded
    &&& m.insert_phase.num_succeeded == m.insert_phase.num_processed - m.insert_phase.num_failed
    &&& m.insert_phase.num_failed == m.insert_phase.errors.len()
    &&& m.num_failed == m.fixup_phase.num_failed + m.insert_phase.num_failed
    &&& m.num_succeeded == m.insert_phase.num_succeeded
    &&& m.num_succeeded + m.num_failed == m.num_processed
    &&& m.errors == m.fixup_phase.errors + m.insert_phase.errors
    &&& m.total_duration == m.fixup_phase.total_duration + m.insert_phase.total_duration
}

impl Default for MigrationPhaseMetrics {
    fn default() -> (r: Self)
        ensures
            r@ == blank_phase(),
    {
        let r = MigrationPhaseMetrics {
            num_processed: 0,
            num_succeeded: 0,
            num_failed: 0,
            total_duration: 0,
            errors: Vec::new(),
        };
        assert(texts(r.errors@) =~= Seq::empty());
        r
    }
}

impl Default for MigrationMetrics {
    fn default() -> (r: Self)
        ensures
            r@ == blank_metrics(),
    {
        let r = MigrationMetrics {
            fixup_phase: MigrationPhaseMetrics::default(),
            insert_phase: MigrationPhaseMetrics::default(),
            num_processed: 0,
            num_succeeded: 0,
            num_failed: 0,
            total_duration: 0,
            errors: Vec::new(),
        };
        assert(texts(r.errors@) =~= Seq::empty());
        r
    }
}

/// A copy of a list of strings.
pub fn copy_texts(v: &Vec<String>) -> (r: Vec<String>)
    ensures
        texts(r@) == texts(v@),
{
    let mut out: Vec<String> = Vec::new();
    let mut i: usize = 0;
    while i < v.len()
        invariant
            i <= v.len(),
            out.len() == i,
            forall|k: int| 0 <= k < i ==> out@[k]@ == v@[k]@,
        decreases v.len() - i,
    {
        out.push(v[i].clone());
        i += 1;
    }
    assert(texts(out@) =~= texts(v@));
    out
}

impl Clone for MigrationPhaseMetrics {
    fn clone(&self) -> (r: Self)
        ensures
            r@ == self@,
    {
        MigrationPhaseMetrics {
            num_processed: self.num_processed,
            num_succeeded: self.num_succeeded,
            num_failed: self.num_failed,
            total_duration: self.total_duration,
            errors: copy_texts(&self.errors),
        }
    }
}

impl Clone for MigrationMetrics {
    fn clone(&self) -> (r: Self)
        ensures
            r@ == self@,
    {
        MigrationMetrics {
            fixup_phase: self.fixup_phase.clone(),
            insert_phase: self.insert_phase.clone(),
            num_processed: self.num_processed,
            num_succeeded: self.num_succeeded,
            num_failed: self.num_failed,
            total_duration: self.total_duration,
            errors: copy_texts(&self.errors),
        }
    }
}

impl MigrationMetrics {
    /// The figures of an import of `total` logins with the given error labels of its two
    /// phases, where the fix-up phase took `fixup_ms` of the `elapsed_ms` that passed.
    pub fn assemble(
        total: u64,
        fixup_errors: Vec<String>,
        insert_errors: Vec<String>,
        fixup_ms: u128,
        elapsed_ms: u128,
    ) -> (r: MigrationMetrics)
        requires
            fixup_errors.len() + insert_errors.len() <= total,
        ensures
            r@ == metrics_of(total, texts(fixup_errors@), texts(insert_errors@), fixup_ms, elapsed_ms),
    {
        let num_failed_fixup: u64 = fixup_errors.len() as u64;
        let num_failed_insert: u64 = insert_errors.len() as u64;
        let num_post_fixup: u64 = total - num_failed_fixup;
        let num_failed: u64 = num_failed_fixup + num_failed_insert;
        let insert_ms: u128 = match elapsed_ms.checked_sub(fixup_ms) {
            Some(d) => d,
            None => 0,
        };
        let total_ms: u128 = match fixup_ms.checked_add(insert_ms) {
            Some(d) => d,
            None => 0,
        };
        let mut all_errors = copy_texts(&fixup_errors);
        let mut rest = copy_texts(&insert_errors);
        all_errors.append(&mut rest);
        assert(texts(all_errors@) =~= texts(fixup_errors@) + texts(insert_errors@));
        MigrationMetrics {
            fixup_phase: MigrationPhaseMetrics {
                num_processed: total,
                num_succeeded: num_post_fixup,
                num_failed: num_failed_fixup,
                total_duration: fixup_ms,
                errors: fixup_errors,
            },
            insert_phase: MigrationPhaseMetrics {
                num_processed: num_post_fixup,
                num_succeeded: num_post_fixup - num_failed_insert,
                num_failed: num_failed_insert,
                total_duration: insert_ms,
                errors: insert_errors,
            },
            num_processed: total,
            num_succeeded: total - num_failed,
            num_failed,
            total_duration: total_ms,
            errors: all_errors,
        }
    }
}

} // verus!
