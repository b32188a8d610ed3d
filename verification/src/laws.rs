//! What holds of the store whatever it holds: the laws that its operations obey together.

use vstd::prelude::*;
use crate::error::{ErrorView, InvalidLogin};
use crate::invariants::lemma_marked;
use crate::login::{fixed, is_canonical, is_dupe_of, lemma_fixed_is_canonical, valid, LoginView};
use crate::error::error_label;
use crate::metrics::{add_up, metrics_of, MetricsView};
use crate::model::{fixup_labels, import_yields, insert_labels, ImportOutcomeView};
use crate::seqs::lemma_filter_map_push;
use crate::model::{is_scrubbed, raised, touched, updated, visible_local, visible_mirror, StoreView};
use crate::row::{status_code, LocalView, MirrorView, SyncStatus};
use crate::seqs::lemma_filter_map_members;
use crate::tidy::{lemma_dupe_exists, lemma_looked_up_is_shown};

verus! {

/// The sequence of visible logins holds exactly the logins of the local rows that are no
/// tombstones and of the mirror rows that are not overridden.
pub proof fn law_visible_set(s: StoreView, l: LoginView)
    ensures
        s.visible().contains(l) <==> s.shows(l),
{
    let keep_local = |r: LocalView|
        if r.is_deleted {
            None
        } else {
            Some(r.login)
        };
    let keep_mirror = |r: MirrorView|
        if r.is_overridden {
            None
        } else {
            Some(r.login)
        };
    let a = visible_local(s.local);
    let b = visible_mirror(s.mirror);
    lemma_filter_map_members(s.local, keep_local);
    lemma_filter_map_members(s.mirror, keep_mirror);
    if s.visible().contains(l) {
        let k = choose|k: int| 0 <= k < s.visible().len() && s.visible()[k] == l;
        if k < a.len() {
            let i = choose|i: int| 0 <= i < s.local.len() && keep_local(#[trigger] s.local[i]) == Some(a[k]);
            assert(!s.local[i].is_deleted && s.local[i].login == l);
        } else {
            let i = choose|i: int|
                0 <= i < s.mirror.len() && keep_mirror(#[trigger] s.mirror[i]) == Some(b[k - a.len()]);
            assert(!s.mirror[i].is_overridden && s.mirror[i].login == l);
        }
    }
    if s.shows(l) {
        if exists|i: int|
            0 <= i < s.local.len() && !(#[trigger] s.local[i]).is_deleted && s.local[i].login == l {
            let i = choose|i: int|
                0 <= i < s.local.len() && !(#[trigger] s.local[i]).is_deleted && s.local[i].login == l;
            assert(keep_local(s.local[i]) is Some);
            assert(a.contains(l));
            let k = choose|k: int| 0 <= k < a.len() && a[k] == l;
            assert(s.visible()[k] == l);
        } else {
            let i = choose|i: int|
                0 <= i < s.mirror.len() && !(#[trigger] s.mirror[i]).is_overridden && s.mirror[i].login
                    == l;
            assert(keep_mirror(s.mirror[i]) is Some);
            assert(b.contains(l));
            let k = choose|k: int| 0 <= k < b.len() && b[k] == l;
            assert(s.visible()[a.len() + k] == l);
        }
    }
}

/// No login duplicates itself.
pub proof fn law_not_own_duplicate(l: LoginView)
    ensures
        !is_dupe_of(l, l),
{
}

/// In a tidy store, a visible record can be updated with the login that it has: the update
/// succeeds, because the record is not taken for a duplicate of itself.
pub proof fn law_update_with_own_login(s: StoreView, g: Seq<char>, now: i64)
    requires
        s.wf(),
        s.tidy(),
        s.lookup(g) is Some,
    ensures
        s.update(s.lookup(g)->0, now) is Ok,
{
    let l = s.lookup(g)->0;
    lemma_looked_up_is_shown(s, g);
    lemma_dupe_exists(s, l);
    assert(is_canonical(l));
}

/// Making a login canonical twice is the same as making it canonical once.
pub proof fn law_fixup_idempotent(l: LoginView)
    requires
        fixed(l) is Ok,
    ensures
        fixed(fixed(l)->Ok_0) == fixed(l),
{
    lemma_fixed_is_canonical(l);
}

/// A login in canonical form passes validation.
pub proof fn law_canonical_is_valid(l: LoginView)
    requires
        is_canonical(l),
    ensures
        valid(l) is Ok,
{
}

/// In a tidy store every visible login passes validation: it has a hostname and a password,
/// and exactly one of form target and realm.
pub proof fn law_visible_logins_are_valid(s: StoreView, l: LoginView)
    requires
        s.tidy(),
        s.shows(l),
    ensures
        valid(l) is Ok,
        l.hostname.len() > 0,
        l.password.len() > 0,
        l.form_submit_url is Some <==> l.http_realm is None,
{
    assert(is_canonical(l));
}

/// To add a login is the same as to add its canonical form.
pub proof fn law_add_canonical_form(s: StoreView, l: LoginView, now: i64, fresh: Seq<char>)
    requires
        fixed(l) is Ok,
    ensures
        s.add(fixed(l)->Ok_0, now, fresh) == s.add(l, now, fresh),
{
    lemma_fixed_is_canonical(l);
}

/// To update a record with a login is the same as to update it with the canonical form of
/// the login.
pub proof fn law_update_canonical_form(s: StoreView, l: LoginView, now: i64)
    requires
        fixed(l) is Ok,
    ensures
        s.update(fixed(l)->Ok_0, now) == s.update(l, now),
{
    lemma_fixed_is_canonical(l);
}

/// After a record was deleted, its local row, if it has one, is a tombstone without hostname,
/// username and password; it has one if it was in the store at all; and it is not visible.
pub proof fn law_delete_leaves_tombstone(s: StoreView, g: Seq<char>, now: i64)
    requires
        s.wf(),
    ensures
        forall|i: int|
            0 <= i < s.delete(g, now).local.len() && (#[trigger] s.delete(g, now).local[i]).login.guid
                == g ==> s.delete(g, now).local[i].is_deleted && is_scrubbed(
                s.delete(g, now).local[i].login,
            ),
        s.has_local(g) || s.has_mirror(g) ==> s.delete(g, now).has_local(g),
        !s.delete(g, now).is_visible(g),
        s.delete(g, now).lookup(g) is None,
{
    let s2 = s.delete(g, now);
    lemma_marked(s, g);
    crate::invariants::lemma_delete_wf(s, g, now);
    assert forall|i: int| 0 <= i < s2.local.len() && (#[trigger] s2.local[i]).login.guid == g implies s2.local[i].is_deleted
        && is_scrubbed(s2.local[i].login) by {
        if s.has_local(g) {
            let at = s.local_index(g);
            s.lemma_local_index(at);
            if i != at {
                s.lemma_local_index(i);
            }
        } else if s.has_mirror(g) {
            if i < s.local.len() {
                assert(s.local[i].login.guid == g);
            }
        } else {
            assert(s.local[i].login.guid == g);
        }
    }
    if s.has_local(g) {
        let at = s.local_index(g);
        assert(s2.local[at].login.guid == g);
    } else if s.has_mirror(g) {
        assert(s2.local[s.local.len() as int].login.guid == g);
    }
    assert(!s2.is_visible(g)) by {
        if exists|i: int|
            0 <= i < s2.mirror.len() && (#[trigger] s2.mirror[i]).login.guid == g
                && !s2.mirror[i].is_overridden {
            let j = choose|j: int|
                0 <= j < s2.mirror.len() && (#[trigger] s2.mirror[j]).login.guid == g
                    && !s2.mirror[j].is_overridden;
            assert(s.mirror[j].login.guid == g);
        }
    }
    s2.lemma_visible_lookup(g);
}

/// An update that leaves the password as it is leaves the time of the last password change
/// as it is; an update that changes the password sets that time to the time of the update.
pub proof fn law_password_time(s: StoreView, l: LoginView, now: i64)
    requires
        s.wf(),
        s.update(l, now) is Ok,
    ensures
        s.lookup(fixed(l)->Ok_0.guid) is Some,
        s.update(l, now)->Ok_0.lookup(fixed(l)->Ok_0.guid) is Some,
        ({
            let g = fixed(l)->Ok_0.guid;
            let before = s.lookup(g)->0;
            let after = s.update(l, now)->Ok_0.lookup(g)->0;
            &&& after.password == l.password
            &&& before.password == l.password ==> after.time_password_changed
                == before.time_password_changed
            &&& before.password != l.password ==> after.time_password_changed == now
        }),
{
    let f = fixed(l)->Ok_0;
    let g = f.guid;
    let s2 = s.update(l, now)->Ok_0;
    crate::invariants::lemma_update_wf(s, l, now);
    if s.has_local(g) {
        let at = s.local_index(g);
        s.lemma_local_index(at);
        assert(s2.local[at].login.guid == g);
        s2.lemma_local_index(at);
    } else {
        let j = s.mirror_index(g);
        s.lemma_mirror_index(j);
        let n = s.local.len() as int;
        assert(s2.local[n].login.guid == g);
        s2.lemma_local_index(n);
    }
}

/// A record gets its local row in two steps: the row is put into the local overlay, which
/// leaves the mirror as it is, and the mirror row is marked, which leaves the local overlay
/// as it is. Between the two the store is in order but for that mark, after both it is in
/// order again; and each step done twice is the step done once.
pub proof fn law_local_row_in_two_steps(s: StoreView, g: Seq<char>)
    requires
        s.wf(),
    ensures
        s.wf_but_mark(g),
        s.with_overlay(g) is Err <==> !s.has_local(g) && !s.has_mirror(g),
        s.with_overlay(g) matches Err(e) ==> e == ErrorView::NoSuchRecord(g) && s.materialized(g)
            == Err::<StoreView, ErrorView>(e),
        s.with_overlay(g) matches Ok(given) ==> {
            &&& given.mirror == s.mirror
            &&& given.wf_but_mark(g)
            &&& given.with_overlay(g) == Ok::<StoreView, ErrorView>(given)
            &&& given.with_mark(g).wf()
            &&& given.with_mark(g).local == given.local
            &&& given.with_mark(g).with_mark(g) == given.with_mark(g)
            &&& s.materialized(g) == Ok::<StoreView, ErrorView>(given.with_mark(g))
        },
{
    if s.with_overlay(g) is Ok {
        let given = s.with_overlay(g)->Ok_0;
        crate::invariants::lemma_with_overlay(s, g);
        crate::invariants::lemma_with_mark(given, g);
        let marked = given.with_mark(g);
        if s.has_mirror(g) {
            let j = s.mirror_index(g);
            s.lemma_mirror_index(j);
            given.lemma_mirror_index(j);
            assert(marked.mirror[j].login.guid == g);
            marked.lemma_mirror_index(j);
            assert(marked.marked(g) =~= marked.mirror);
            assert(given.marked(g) =~= s.marked(g));
        } else {
            assert forall|k: int| 0 <= k < given.mirror.len() implies (#[trigger] given.mirror[k]).login.guid
                != g by {
                assert(s.mirror[k].login.guid != g);
            }
        }
    }
}

/// A record is touched by giving it its local row and then counting a use on that row,
/// unless the row is a tombstone; and a record is updated in the same way, with the new
/// login put on that row.
pub proof fn law_changes_go_to_the_local_row(s: StoreView, g: Seq<char>, f: LoginView, now: i64)
    requires
        s.wf(),
        f.guid == g,
    ensures
        s.touch(g, now) is Ok <==> s.materialized(g) is Ok,
        s.touch(g, now) matches Ok(after) ==> {
            let given = s.materialized(g)->Ok_0;
            &&& after.mirror == given.mirror
            &&& after.local == if given.local_row(g).is_deleted {
                given.local
            } else {
                given.local.update(given.local_index(g), touched(given.local_row(g), now))
            }
        },
        s.update_fixed(f, now) matches Ok(after) ==> {
            let given = s.materialized(g)->Ok_0;
            &&& s.materialized(g) is Ok
            &&& after.mirror == given.mirror
            &&& after.local == given.local.update(
                given.local_index(g),
                updated(given.local_row(g), f, now),
            )
        },
{
    if s.materialized(g) is Ok {
        crate::invariants::lemma_materialized_wf(s, g);
        let given = s.materialized(g)->Ok_0;
        let row = given.local_row(g);
        if !s.has_local(g) {
            let at = s.local.len() as int;
            assert(s.local.push(row).update(at, touched(row, now)) =~= s.local.push(
                touched(row, now),
            ));
            assert(s.local.push(row).update(at, updated(row, f, now)) =~= s.local.push(
                updated(row, f, now),
            ));
        }
    }
}

/// A local change never lowers the sync status of a row: a new row stays new, and a synced or
/// changed row is changed afterwards.
pub proof fn law_status_never_regresses(st: SyncStatus)
    ensures
        status_code(raised(st)) >= status_code(st),
        status_code(raised(st)) >= status_code(SyncStatus::Changed),
        st == SyncStatus::New ==> raised(st) == SyncStatus::New,
{
}

/// A login that is not valid, or that duplicates a visible login, is not added, whatever the
/// time and the fresh identifier are.
pub proof fn law_add_rejects(s: StoreView, l: LoginView, now: i64, fresh: Seq<char>)
    ensures
        fixed(l) matches Err(e) ==> s.add(l, now, fresh) == Err::<(StoreView, LoginView), ErrorView>(
            ErrorView::InvalidLogin(e),
        ),
        fixed(l) matches Ok(f) && s.dupe_exists(f) ==> s.add(l, now, fresh) == Err::<
            (StoreView, LoginView),
            ErrorView,
        >(ErrorView::InvalidLogin(InvalidLogin::DuplicateLogin)),
{
}

/// The figures of an import add up: every login is processed, each phase splits what it
/// processed into what succeeded and what failed, the insert phase processes what the fix-up
/// phase let through, and the totals count as failed what failed in either phase.
pub proof fn law_metrics_add_up(
    total: u64,
    fixup_errors: Seq<Seq<char>>,
    insert_errors: Seq<Seq<char>>,
    fixup_ms: u128,
    elapsed_ms: u128,
)
    requires
        fixup_errors.len() + insert_errors.len() <= total,
    ensures
        ({
            let m = metrics_of(total, fixup_errors, insert_errors, fixup_ms, elapsed_ms);
            &&& m.num_processed == total
            &&& m.num_succeeded + m.num_failed == m.num_processed
            &&& m.fixup_phase.num_processed == total
            &&& m.fixup_phase.num_succeeded + m.fixup_phase.num_failed == m.fixup_phase.num_processed
            &&& m.insert_phase.num_processed == m.fixup_phase.num_succeeded
            &&& m.insert_phase.num_succeeded + m.insert_phase.num_failed
                == m.insert_phase.num_processed
            &&& m.num_failed == m.fixup_phase.num_failed + m.insert_phase.num_failed
            &&& m.num_succeeded == m.insert_phase.num_succeeded
            &&& m.errors == fixup_errors + insert_errors
            &&& m.fixup_phase.num_failed == fixup_errors.len()
            &&& m.insert_phase.num_failed == insert_errors.len()
            &&& add_up(m, total as int)
        }),
{
}

/// An import has one outcome for each login, and its two phases together keep at most as
/// many error labels as there are logins.
pub proof fn law_import_labels_bounded(
    s: StoreView,
    logins: Seq<LoginView>,
    now: i64,
    fresh: Seq<Seq<char>>,
)
    ensures
        s.import_all(logins, now, fresh).1.len() == logins.len(),
        fixup_labels(s.import_all(logins, now, fresh).1).len() + insert_labels(
            s.import_all(logins, now, fresh).1,
        ).len() <= logins.len(),
    decreases logins.len(),
{
    if logins.len() > 0 {
        law_import_labels_bounded(s, logins.drop_last(), now, fresh);
        let (before, outcomes) = s.import_all(logins.drop_last(), now, fresh);
        let outcome = before.import_one(logins.last(), now, fresh[logins.len() - 1]).1;
        lemma_filter_map_push(
            outcomes,
            outcome,
            |o: ImportOutcomeView|
                match o {
                    ImportOutcomeView::FailedFixup(e) => Some(error_label(e)),
                    _ => None,
                },
        );
        lemma_filter_map_push(
            outcomes,
            outcome,
            |o: ImportOutcomeView|
                match o {
                    ImportOutcomeView::FailedInsert(e) => Some(error_label(e)),
                    _ => None,
                },
        );
    }
}

/// The figures that an import reports add up, whatever was imported and however long it took.
pub proof fn law_import_adds_up(
    before: StoreView,
    logins: Seq<LoginView>,
    now: i64,
    fresh: Seq<Seq<char>>,
    fixup_ms: u128,
    elapsed_ms: u128,
    after: StoreView,
    metrics: MetricsView,
)
    requires
        logins.len() <= u64::MAX,
        import_yields(before, logins, now, fresh, fixup_ms, elapsed_ms, after, metrics),
    ensures
        add_up(metrics, logins.len() as int),
{
    law_import_labels_bounded(before, logins, now, fresh);
    let outcomes = before.import_all(logins, now, fresh).1;
    law_metrics_add_up(
        logins.len() as u64,
        fixup_labels(outcomes),
        insert_labels(outcomes),
        fixup_ms,
        elapsed_ms,
    );
}

} // verus!
