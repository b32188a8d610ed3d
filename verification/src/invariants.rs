//! Proofs that every operation leaves the store in order.

use vstd::prelude::*;
use crate::login::LoginView;
use crate::model::{is_scrubbed, overlay_of, overridden, scrubbed, tombstone_of, touched, updated, wipe_tombstones, StoreView};
use crate::row::{LocalView, MirrorView, SyncStatus};

verus! {

/// The local overlay after the row of `g` was replaced by `row`, or after `row` was added
/// where `g` had no local row.
pub open spec fn local_put(s: StoreView, g: Seq<char>, row: LocalView) -> Seq<LocalView> {
    if s.has_local(g) {
        s.local.update(s.local_index(g), row)
    } else {
        s.local.push(row)
    }
}

/// Marking the mirror row of `g` keeps every identifier in its place and changes only the mark
/// of that row.
pub proof fn lemma_marked(s: StoreView, g: Seq<char>)
    requires
        s.wf(),
    ensures
        s.marked(g).len() == s.mirror.len(),
        forall|k: int|
            0 <= k < s.mirror.len() ==> (#[trigger] s.marked(g)[k]) == (if s.mirror[k].login.guid
                == g {
                overridden(s.mirror[k])
            } else {
                s.mirror[k]
            }),
{
    if s.has_mirror(g) {
        let j = s.mirror_index(g);
        s.lemma_mirror_index(j);
        assert forall|k: int| 0 <= k < s.mirror.len() implies (#[trigger] s.marked(g)[k]) == (if s.mirror[k].login.guid
            == g {
            overridden(s.mirror[k])
        } else {
            s.mirror[k]
        }) by {
            s.lemma_mirror_index(k);
        }
    } else {
        assert forall|k: int| 0 <= k < s.mirror.len() implies (#[trigger] s.mirror[k]).login.guid
            != g by {}
    }
}

/// Putting a local row in front of a record and marking its mirror row leaves the store in
/// order, provided that the record is in the store, that a tombstone is scrubbed, and that
/// only a row that was new before stays new.
pub proof fn lemma_put_wf(s: StoreView, g: Seq<char>, row: LocalView)
    requires
        s.wf(),
        s.has_local(g) || s.has_mirror(g),
        row.login.guid == g,
        row.is_deleted ==> is_scrubbed(row.login),
        row.sync_status == SyncStatus::New ==> s.has_local(g) && s.local_row(g).sync_status
            == SyncStatus::New,
    ensures
        (StoreView { local: local_put(s, g, row), mirror: s.marked(g), ..s }).wf(),
        forall|x: Seq<char>|
            (StoreView { local: local_put(s, g, row), mirror: s.marked(g), ..s }).has_local(x) <==> (
            s.has_local(x) || x == g),
{
    let s2 = StoreView { local: local_put(s, g, row), mirror: s.marked(g), ..s };
    lemma_marked(s, g);
    let n = s.local.len() as int;
    if s.has_local(g) {
        let i = s.local_index(g);
        s.lemma_local_index(i);
        assert forall|k: int| 0 <= k < n implies (#[trigger] s2.local[k]).login.guid
            == s.local[k].login.guid by {}
    } else {
        assert forall|k: int| 0 <= k < n implies (#[trigger] s2.local[k]) == s.local[k] by {}
        assert(s2.local[n] == row);
    }
    assert forall|x: Seq<char>| s2.has_local(x) <==> (s.has_local(x) || x == g) by {
        if s2.has_local(x) {
            let k = choose|k: int| 0 <= k < s2.local.len() && (#[trigger] s2.local[k]).login.guid == x;
            if k < n {
                assert(s.local[k].login.guid == x);
            }
        }
        if s.has_local(x) {
            let k = choose|k: int| 0 <= k < s.local.len() && (#[trigger] s.local[k]).login.guid == x;
            assert(s2.local[k].login.guid == x);
        }
        if x == g {
            if s.has_local(g) {
                assert(s2.local[s.local_index(g)].login.guid == g);
            } else {
                assert(s2.local[n].login.guid == g);
            }
        }
    }
    assert forall|x: Seq<char>| s2.has_mirror(x) <==> s.has_mirror(x) by {
        if s2.has_mirror(x) {
            let k = choose|k: int|
                0 <= k < s2.mirror.len() && (#[trigger] s2.mirror[k]).login.guid == x;
            assert(s.mirror[k].login.guid == x);
        }
        if s.has_mirror(x) {
            let k = choose|k: int| 0 <= k < s.mirror.len() && (#[trigger] s.mirror[k]).login.guid == x;
            assert(s2.mirror[k].login.guid == x);
        }
    }
    assert forall|i: int, j: int| 0 <= i < j < s2.local.len() implies (#[trigger] s2.local[i]).login.guid
        != (#[trigger] s2.local[j]).login.guid by {
        if j < n {
            assert(s.local[i].login.guid != s.local[j].login.guid);
        } else {
            assert(s.local[i].login.guid != g);
        }
    }
    assert forall|i: int, j: int| 0 <= i < j < s2.mirror.len() implies (#[trigger] s2.mirror[i]).login.guid
        != (#[trigger] s2.mirror[j]).login.guid by {
        assert(s.mirror[i].login.guid != s.mirror[j].login.guid);
    }
    assert forall|j: int| 0 <= j < s2.mirror.len() implies ((#[trigger] s2.mirror[j]).is_overridden
        <==> s2.has_local(s2.mirror[j].login.guid)) by {
        assert(s.mirror[j].is_overridden <==> s.has_local(s.mirror[j].login.guid));
    }
    assert forall|i: int|
        0 <= i < s2.local.len() && (#[trigger] s2.local[i]).sync_status
            == SyncStatus::New implies !s2.has_mirror(s2.local[i].login.guid) by {
        if i < n && s2.local[i] == s.local[i] {
            assert(!s.has_mirror(s.local[i].login.guid));
        } else {
            let at = s.local_index(g);
            s.lemma_local_index(at);
            assert(!s.has_mirror(s.local[at].login.guid));
        }
    }
    assert forall|i: int| 0 <= i < s2.local.len() && (#[trigger] s2.local[i]).is_deleted implies is_scrubbed(
        s2.local[i].login,
    ) by {
        if i < n && s2.local[i] == s.local[i] {
            assert(is_scrubbed(s.local[i].login));
        }
    }
}

/// Adding a local row for a record that is in neither table leaves the store in order.
pub proof fn lemma_insert_wf(s: StoreView, row: LocalView)
    requires
        s.wf(),
        row.login.guid.len() > 0,
        !s.has_local(row.login.guid),
        !s.has_mirror(row.login.guid),
        !row.is_deleted,
    ensures
        (StoreView { local: s.local.push(row), ..s }).wf(),
        forall|x: Seq<char>|
            (StoreView { local: s.local.push(row), ..s }).has_local(x) <==> (s.has_local(x) || x
                == row.login.guid),
{
    let s2 = StoreView { local: s.local.push(row), ..s };
    let g = row.login.guid;
    let n = s.local.len() as int;
    assert forall|k: int| 0 <= k < n implies (#[trigger] s2.local[k]) == s.local[k] by {}
    assert(s2.local[n] == row);
    assert forall|x: Seq<char>| s2.has_local(x) <==> (s.has_local(x) || x == g) by {
        if s2.has_local(x) {
            let k = choose|k: int| 0 <= k < s2.local.len() && (#[trigger] s2.local[k]).login.guid == x;
            if k < n {
                assert(s.local[k].login.guid == x);
            }
        }
        if s.has_local(x) {
            let k = choose|k: int| 0 <= k < s.local.len() && (#[trigger] s.local[k]).login.guid == x;
            assert(s2.local[k].login.guid == x);
        }
        if x == g {
            assert(s2.local[n].login.guid == g);
        }
    }
    assert forall|i: int, j: int| 0 <= i < j < s2.local.len() implies (#[trigger] s2.local[i]).login.guid
        != (#[trigger] s2.local[j]).login.guid by {
        if j < n {
            assert(s.local[i].login.guid != s.local[j].login.guid);
        } else {
            assert(s.local[i].login.guid != g);
        }
    }
    assert forall|j: int| 0 <= j < s2.mirror.len() implies ((#[trigger] s2.mirror[j]).is_overridden
        <==> s2.has_local(s2.mirror[j].login.guid)) by {
        assert(s.mirror[j].is_overridden <==> s.has_local(s.mirror[j].login.guid));
    }
    assert forall|i: int|
        0 <= i < s2.local.len() && (#[trigger] s2.local[i]).sync_status
            == SyncStatus::New implies !s2.has_mirror(s2.local[i].login.guid) by {
        if i < n {
            assert(!s.has_mirror(s.local[i].login.guid));
        }
    }
    assert forall|i: int| 0 <= i < s2.local.len() && (#[trigger] s2.local[i]).is_deleted implies is_scrubbed(
        s2.local[i].login,
    ) by {
        if i < n {
            assert(is_scrubbed(s.local[i].login));
        }
    }
}

/// To give a record its local row leaves the store in order but for the mark of that record,
/// and the local row is then where it was, or at the end where it is new.
pub proof fn lemma_with_overlay(s: StoreView, g: Seq<char>)
    requires
        s.wf_but_mark(g),
        s.with_overlay(g) is Ok,
    ensures
        s.with_overlay(g)->Ok_0.wf_but_mark(g),
        s.with_overlay(g)->Ok_0.has_local(g),
        s.with_overlay(g)->Ok_0.local_index(g) == (if s.has_local(g) {
            s.local_index(g)
        } else {
            s.local.len() as int
        }),
        s.with_overlay(g)->Ok_0.local_row(g) == (if s.has_local(g) {
            s.local_row(g)
        } else {
            overlay_of(s.mirror_row(g))
        }),
        forall|x: Seq<char>| s.with_overlay(g)->Ok_0.has_local(x) <==> (s.has_local(x) || x == g),
{
    let s2 = s.with_overlay(g)->Ok_0;
    if s.has_local(g) {
        s.lemma_local_index(s.local_index(g));
    } else {
        let j = s.mirror_index(g);
        s.lemma_mirror_index(j);
        let row = overlay_of(s.mirror_row(g));
        let n = s.local.len() as int;
        assert forall|k: int| 0 <= k < n implies (#[trigger] s2.local[k]) == s.local[k] by {}
        assert(s2.local[n] == row);
        assert forall|x: Seq<char>| s2.has_local(x) <==> (s.has_local(x) || x == g) by {
            if s2.has_local(x) {
                let k = choose|k: int|
                    0 <= k < s2.local.len() && (#[trigger] s2.local[k]).login.guid == x;
                if k < n {
                    assert(s.local[k].login.guid == x);
                }
            }
            if s.has_local(x) {
                let k = choose|k: int| 0 <= k < s.local.len() && (#[trigger] s.local[k]).login.guid == x;
                assert(s2.local[k].login.guid == x);
            }
            if x == g {
                assert(s2.local[n].login.guid == g);
            }
        }
        assert forall|a: int, b: int| 0 <= a < b < s2.local.len() implies (#[trigger] s2.local[a]).login.guid
            != (#[trigger] s2.local[b]).login.guid by {
            if b < n {
                assert(s.local[a].login.guid != s.local[b].login.guid);
            } else {
                assert(s.local[a].login.guid != g);
            }
        }
        assert forall|k: int|
            0 <= k < s2.mirror.len() && (#[trigger] s2.mirror[k]).login.guid != g implies (
        s2.mirror[k].is_overridden <==> s2.has_local(s2.mirror[k].login.guid)) by {
            assert(s.mirror[k].is_overridden <==> s.has_local(s.mirror[k].login.guid));
        }
        assert forall|i: int|
            0 <= i < s2.local.len() && (#[trigger] s2.local[i]).sync_status
                == SyncStatus::New implies !s2.has_mirror(s2.local[i].login.guid) by {
            assert(i < n);
            assert(!s.has_mirror(s.local[i].login.guid));
        }
        assert forall|i: int| 0 <= i < s2.local.len() implies (#[trigger] s2.local[i]).login.guid.len()
            > 0 && (s2.local[i].is_deleted ==> is_scrubbed(s2.local[i].login)) by {
            if i < n {
                assert(s.local[i].login.guid.len() > 0);
                assert(s.local[i].is_deleted ==> is_scrubbed(s.local[i].login));
            } else {
                assert(s.mirror[j].login.guid.len() > 0);
            }
        }
        s2.lemma_local_index(n);
    }
}

/// To mark the mirror row of a record leaves the store in order but for that mark, and in
/// order where the record has a local row or no mirror row.
pub proof fn lemma_with_mark(s: StoreView, g: Seq<char>)
    requires
        s.wf_but_mark(g),
    ensures
        s.with_mark(g).wf_but_mark(g),
        s.has_local(g) || !s.has_mirror(g) ==> s.with_mark(g).wf(),
{
    let s2 = s.with_mark(g);
    if s.has_mirror(g) {
        let j = s.mirror_index(g);
        s.lemma_mirror_index(j);
        assert forall|k: int| 0 <= k < s.mirror.len() implies (#[trigger] s2.mirror[k]) == (if k == j {
            overridden(s.mirror[k])
        } else {
            s.mirror[k]
        }) by {}
        assert forall|k: int| 0 <= k < s.mirror.len() && k != j implies (#[trigger] s.mirror[k]).login.guid
            != g by {
            s.lemma_mirror_index(k);
        }
    } else {
        assert forall|k: int| 0 <= k < s.mirror.len() implies (#[trigger] s.mirror[k]).login.guid
            != g by {}
    }
    assert forall|x: Seq<char>| s2.has_mirror(x) <==> s.has_mirror(x) by {
        if s2.has_mirror(x) {
            let k = choose|k: int|
                0 <= k < s2.mirror.len() && (#[trigger] s2.mirror[k]).login.guid == x;
            assert(s.mirror[k].login.guid == x);
        }
        if s.has_mirror(x) {
            let k = choose|k: int| 0 <= k < s.mirror.len() && (#[trigger] s.mirror[k]).login.guid == x;
            assert(s2.mirror[k].login.guid == x);
        }
    }
    assert forall|a: int, b: int| 0 <= a < b < s2.mirror.len() implies (#[trigger] s2.mirror[a]).login.guid
        != (#[trigger] s2.mirror[b]).login.guid by {
        assert(s.mirror[a].login.guid != s.mirror[b].login.guid);
    }
    assert forall|k: int| 0 <= k < s2.mirror.len() implies (#[trigger] s2.mirror[k]).login.guid.len()
        > 0 by {
        assert(s.mirror[k].login.guid.len() > 0);
    }
    assert forall|k: int|
        0 <= k < s2.mirror.len() && (#[trigger] s2.mirror[k]).login.guid != g implies (
    s2.mirror[k].is_overridden <==> s2.has_local(s2.mirror[k].login.guid)) by {
        assert(s.mirror[k].is_overridden <==> s.has_local(s.mirror[k].login.guid));
    }
    assert forall|i: int|
        0 <= i < s2.local.len() && (#[trigger] s2.local[i]).sync_status
            == SyncStatus::New implies !s2.has_mirror(s2.local[i].login.guid) by {
        assert(!s.has_mirror(s.local[i].login.guid));
    }
    if s.has_local(g) || !s.has_mirror(g) {
        assert forall|k: int| 0 <= k < s2.mirror.len() implies ((#[trigger] s2.mirror[k]).is_overridden
            <==> s2.has_local(s2.mirror[k].login.guid)) by {
            if s2.mirror[k].login.guid != g {
                assert(s.mirror[k].is_overridden <==> s.has_local(s.mirror[k].login.guid));
            }
        }
    }
}

/// To give a record its local row leaves the store in order, and the local row is then where
/// it was, or at the end where it is new.
pub proof fn lemma_materialized_wf(s: StoreView, g: Seq<char>)
    requires
        s.wf(),
        s.materialized(g) is Ok,
    ensures
        s.materialized(g)->Ok_0.wf(),
        s.materialized(g)->Ok_0.has_local(g),
        s.materialized(g)->Ok_0.local_index(g) == (if s.has_local(g) {
            s.local_index(g)
        } else {
            s.local.len() as int
        }),
        s.materialized(g)->Ok_0.local_row(g) == (if s.has_local(g) {
            s.local_row(g)
        } else {
            overlay_of(s.mirror_row(g))
        }),
{
    let s2 = s.materialized(g)->Ok_0;
    if s.has_local(g) {
        let i = s.local_index(g);
        s.lemma_local_index(i);
        lemma_put_wf(s, g, s.local_row(g));
        assert(s2.local =~= local_put(s, g, s.local_row(g)));
        s2.lemma_local_index(i);
    } else {
        let j = s.mirror_index(g);
        s.lemma_mirror_index(j);
        lemma_put_wf(s, g, overlay_of(s.mirror_row(g)));
        s2.lemma_local_index(s.local.len() as int);
    }
}

/// `touch` leaves the store in order.
pub proof fn lemma_touch_wf(s: StoreView, g: Seq<char>, now: i64)
    requires
        s.wf(),
        s.touch(g, now) is Ok,
    ensures
        s.touch(g, now)->Ok_0.wf(),
{
    let s2 = s.touch(g, now)->Ok_0;
    if s.has_local(g) {
        let i = s.local_index(g);
        s.lemma_local_index(i);
        let r = s.local_row(g);
        let row = if r.is_deleted {
            r
        } else {
            touched(r, now)
        };
        lemma_put_wf(s, g, row);
        assert(s2.local =~= local_put(s, g, row));
    } else {
        let j = s.mirror_index(g);
        s.lemma_mirror_index(j);
        lemma_put_wf(s, g, touched(overlay_of(s.mirror_row(g)), now));
    }
}

/// An update with a canonical login leaves the store in order.
pub proof fn lemma_update_fixed_wf(s: StoreView, f: LoginView, now: i64)
    requires
        s.wf(),
        s.update_fixed(f, now) is Ok,
    ensures
        s.update_fixed(f, now)->Ok_0.wf(),
{
    let g = f.guid;
    if s.has_local(g) {
        let i = s.local_index(g);
        s.lemma_local_index(i);
        lemma_put_wf(s, g, updated(s.local_row(g), f, now));
    } else {
        let j = s.mirror_index(g);
        s.lemma_mirror_index(j);
        lemma_put_wf(s, g, updated(overlay_of(s.mirror_row(g)), f, now));
    }
}

/// `update` leaves the store in order.
pub proof fn lemma_update_wf(s: StoreView, l: LoginView, now: i64)
    requires
        s.wf(),
        s.update(l, now) is Ok,
    ensures
        s.update(l, now)->Ok_0.wf(),
{
    lemma_update_fixed_wf(s, crate::login::fixed(l)->Ok_0, now);
}

/// `delete` leaves the store in order.
pub proof fn lemma_delete_wf(s: StoreView, g: Seq<char>, now: i64)
    requires
        s.wf(),
    ensures
        s.delete(g, now).wf(),
{
    if s.has_local(g) {
        let i = s.local_index(g);
        s.lemma_local_index(i);
        lemma_put_wf(s, g, scrubbed(s.local_row(g), now));
    } else if s.has_mirror(g) {
        let j = s.mirror_index(g);
        s.lemma_mirror_index(j);
        lemma_put_wf(s, g, tombstone_of(s.mirror_row(g), now));
    } else {
        assert(s.delete(g, now) == s);
    }
}

/// Whether `t` is a tombstone that a wipe of `s` puts in front of one of the mirror rows `rows`.
pub open spec fn is_wipe_tombstone(s: StoreView, rows: Seq<MirrorView>, t: LocalView) -> bool {
    &&& t.is_deleted
    &&& is_scrubbed(t.login)
    &&& t.sync_status == SyncStatus::Changed
    &&& !s.has_local(t.login.guid)
    &&& exists|i: int| 0 <= i < rows.len() && (#[trigger] rows[i]).login.guid == t.login.guid
}

/// Whether the tombstones `ts` hold one for the record `g`.
pub open spec fn has_tombstone(ts: Seq<LocalView>, g: Seq<char>) -> bool {
    exists|k: int| 0 <= k < ts.len() && (#[trigger] ts[k]).login.guid == g
}

/// The tombstones of a wipe, one mirror row at a time.
pub proof fn lemma_wipe_tombstones_push(s: StoreView, rest: Seq<MirrorView>, last: MirrorView, now: i64)
    ensures
        wipe_tombstones(s, rest.push(last), now) == if s.has_local(last.login.guid) {
            wipe_tombstones(s, rest, now)
        } else {
            wipe_tombstones(s, rest, now).push(tombstone_of(last, now))
        },
{
    crate::seqs::lemma_filter_map_push(
        rest,
        last,
        |m: MirrorView|
            if s.has_local(m.login.guid) {
                None
            } else {
                Some(tombstone_of(m, now))
            },
    );
}

/// The tombstones of a wipe stand for exactly the mirror rows without a local row, once each.
pub proof fn lemma_wipe_tombstones(s: StoreView, rows: Seq<MirrorView>, now: i64)
    requires
        forall|i: int, j: int|
            0 <= i < j < rows.len() ==> (#[trigger] rows[i]).login.guid != (
            #[trigger] rows[j]).login.guid,
    ensures
        forall|k: int|
            0 <= k < wipe_tombstones(s, rows, now).len() ==> is_wipe_tombstone(
                s,
                rows,
                #[trigger] wipe_tombstones(s, rows, now)[k],
            ),
        forall|i: int|
            0 <= i < rows.len() && !s.has_local((#[trigger] rows[i]).login.guid) ==> has_tombstone(
                wipe_tombstones(s, rows, now),
                rows[i].login.guid,
            ),
        forall|a: int, b: int|
            0 <= a < b < wipe_tombstones(s, rows, now).len() ==> (#[trigger] wipe_tombstones(
                s,
                rows,
                now,
            )[a]).login.guid != (#[trigger] wipe_tombstones(s, rows, now)[b]).login.guid,
    decreases rows.len(),
{
    if rows.len() == 0 {
        assert(wipe_tombstones(s, rows, now).len() == 0);
    } else {
        let rest = rows.drop_last();
        let last = rows.last();
        assert(rows =~= rest.push(last));
        assert forall|i: int, j: int| 0 <= i < j < rest.len() implies (#[trigger] rest[i]).login.guid
            != (#[trigger] rest[j]).login.guid by {
            assert(rest[i] == rows[i] && rest[j] == rows[j]);
        }
        lemma_wipe_tombstones(s, rest, now);
        lemma_wipe_tombstones_push(s, rest, last, now);
        let t_rest = wipe_tombstones(s, rest, now);
        let t_all = wipe_tombstones(s, rows, now);
        let n = t_rest.len() as int;
        assert forall|k: int| 0 <= k < t_all.len() implies is_wipe_tombstone(
            s,
            rows,
            #[trigger] t_all[k],
        ) by {
            if k < n {
                assert(t_all[k] == t_rest[k]);
                assert(is_wipe_tombstone(s, rest, t_rest[k]));
                let i = choose|i: int|
                    0 <= i < rest.len() && (#[trigger] rest[i]).login.guid == t_rest[k].login.guid;
                assert(rows[i] == rest[i]);
            } else {
                assert(t_all[k] == tombstone_of(last, now));
                assert(rows[rows.len() - 1].login.guid == last.login.guid);
            }
        }
        assert forall|i: int|
            0 <= i < rows.len() && !s.has_local((#[trigger] rows[i]).login.guid) implies has_tombstone(
            t_all,
            rows[i].login.guid,
        ) by {
            if i < rest.len() {
                assert(rest[i] == rows[i]);
                assert(has_tombstone(t_rest, rest[i].login.guid));
                let k = choose|k: int|
                    0 <= k < t_rest.len() && (#[trigger] t_rest[k]).login.guid == rest[i].login.guid;
                assert(t_all[k] == t_rest[k]);
            } else {
                assert(t_all[n].login.guid == rows[i].login.guid);
            }
        }
        assert forall|a: int, b: int| 0 <= a < b < t_all.len() implies (#[trigger] t_all[a]).login.guid
            != (#[trigger] t_all[b]).login.guid by {
            assert(t_all[a] == t_rest[a]);
            if b < n {
                assert(t_all[b] == t_rest[b]);
            } else {
                assert(is_wipe_tombstone(s, rest, t_rest[a]));
                let i = choose|i: int|
                    0 <= i < rest.len() && (#[trigger] rest[i]).login.guid == t_rest[a].login.guid;
                assert(rows[i] == rest[i]);
                assert(rows[i].login.guid != rows[rows.len() - 1].login.guid);
            }
        }
    }
}

/// `wipe` leaves the store in order.
pub proof fn lemma_wipe_wf(s: StoreView, now: i64)
    requires
        s.wf(),
    ensures
        s.wipe(now).wf(),
{
    let s2 = s.wipe(now);
    let n = s.local.len() as int;
    let t = wipe_tombstones(s, s.mirror, now);
    lemma_wipe_tombstones(s, s.mirror, now);
    assert(s2.local.len() == n + t.len());
    assert forall|k: int| 0 <= k < n implies (#[trigger] s2.local[k]) == (if s.local[k].is_deleted {
        s.local[k]
    } else {
        scrubbed(s.local[k], now)
    }) by {}
    assert forall|k: int| n <= k < s2.local.len() implies (#[trigger] s2.local[k]) == t[k - n] by {}
    assert forall|k: int| 0 <= k < t.len() implies is_wipe_tombstone(s, s.mirror, #[trigger] t[k]) by {}
    assert forall|x: Seq<char>| s2.has_mirror(x) <==> s.has_mirror(x) by {
        if s2.has_mirror(x) {
            let k = choose|k: int|
                0 <= k < s2.mirror.len() && (#[trigger] s2.mirror[k]).login.guid == x;
            assert(s.mirror[k].login.guid == x);
        }
        if s.has_mirror(x) {
            let k = choose|k: int| 0 <= k < s.mirror.len() && (#[trigger] s.mirror[k]).login.guid == x;
            assert(s2.mirror[k].login.guid == x);
        }
    }
    assert forall|i: int, j: int| 0 <= i < j < s2.local.len() implies (#[trigger] s2.local[i]).login.guid
        != (#[trigger] s2.local[j]).login.guid by {
        if j < n {
            assert(s.local[i].login.guid != s.local[j].login.guid);
        } else if i < n {
            assert(is_wipe_tombstone(s, s.mirror, t[j - n]));
            assert(s.local[i].login.guid != t[j - n].login.guid);
        } else {
            assert(t[i - n].login.guid != t[j - n].login.guid);
        }
    }
    assert forall|i: int, j: int| 0 <= i < j < s2.mirror.len() implies (#[trigger] s2.mirror[i]).login.guid
        != (#[trigger] s2.mirror[j]).login.guid by {
        assert(s.mirror[i].login.guid != s.mirror[j].login.guid);
    }
    assert forall|j: int| 0 <= j < s2.mirror.len() implies ((#[trigger] s2.mirror[j]).is_overridden
        <==> s2.has_local(s2.mirror[j].login.guid)) by {
        let g = s.mirror[j].login.guid;
        if s.has_local(g) {
            let k = choose|k: int| 0 <= k < s.local.len() && (#[trigger] s.local[k]).login.guid == g;
            assert(s2.local[k].login.guid == g);
        } else {
            assert(has_tombstone(t, g));
            let k = choose|k: int| 0 <= k < t.len() && (#[trigger] t[k]).login.guid == g;
            assert(s2.local[n + k].login.guid == g);
        }
    }
    assert forall|i: int|
        0 <= i < s2.local.len() && (#[trigger] s2.local[i]).sync_status
            == SyncStatus::New implies !s2.has_mirror(s2.local[i].login.guid) by {
        if i < n {
            assert(!s.has_mirror(s.local[i].login.guid));
        } else {
            assert(is_wipe_tombstone(s, s.mirror, t[i - n]));
        }
    }
    assert forall|i: int| 0 <= i < s2.local.len() && (#[trigger] s2.local[i]).is_deleted implies is_scrubbed(
        s2.local[i].login,
    ) by {
        if i < n {
            if s.local[i].is_deleted {
                assert(is_scrubbed(s.local[i].login));
            }
        } else {
            assert(is_wipe_tombstone(s, s.mirror, t[i - n]));
        }
    }
}

/// The confirmation of a local row by the server leaves the store in order.
pub proof fn lemma_uploaded_wf(s: StoreView, g: Seq<char>, server_modified: i64)
    requires
        s.wf(),
    ensures
        s.uploaded(g, server_modified).wf(),
{
    if s.has_local(g) {
        let s2 = s.uploaded(g, server_modified);
        let at = s.local_index(g);
        s.lemma_local_index(at);
        let r = s.local[at];
        let n = s.local.len() as int;
        assert forall|k: int| 0 <= k < s2.local.len() implies (#[trigger] s2.local[k]) == (if k < at {
            s.local[k]
        } else {
            s.local[k + 1]
        }) by {}
        assert forall|x: Seq<char>| s2.has_local(x) <==> (s.has_local(x) && x != g) by {
            if s2.has_local(x) {
                let k = choose|k: int|
                    0 <= k < s2.local.len() && (#[trigger] s2.local[k]).login.guid == x;
                let k0 = if k < at {
                    k
                } else {
                    k + 1
                };
                assert(s.local[k0].login.guid == x);
                s.lemma_local_index(k0);
            }
            if s.has_local(x) && x != g {
                let k = choose|k: int| 0 <= k < s.local.len() && (#[trigger] s.local[k]).login.guid == x;
                let k1 = if k < at {
                    k
                } else {
                    k - 1
                };
                assert(s2.local[k1].login.guid == x);
            }
        }
        assert forall|i: int, j: int| 0 <= i < j < s2.local.len() implies (#[trigger] s2.local[i]).login.guid
            != (#[trigger] s2.local[j]).login.guid by {
            let i0 = if i < at {
                i
            } else {
                i + 1
            };
            let j0 = if j < at {
                j
            } else {
                j + 1
            };
            assert(s.local[i0].login.guid != s.local[j0].login.guid);
        }
        assert forall|i: int| 0 <= i < s2.local.len() implies (#[trigger] s2.local[i]).login.guid.len()
            > 0 && (s2.local[i].is_deleted ==> is_scrubbed(s2.local[i].login)) by {
            let i0 = if i < at {
                i
            } else {
                i + 1
            };
            assert(s.local[i0].login.guid.len() > 0);
            assert(s.local[i0].is_deleted ==> is_scrubbed(s.local[i0].login));
        }
        if s.has_mirror(g) {
            let j = s.mirror_index(g);
            s.lemma_mirror_index(j);
            if r.is_deleted {
                lemma_mirror_removed(s, s2, g, j);
            } else {
                lemma_mirror_replaced(s, s2, g, j);
            }
        } else {
            if r.is_deleted {
                lemma_mirror_kept(s, s2, g);
            } else {
                lemma_mirror_added(s, s2, g);
            }
        }
        assert forall|i: int|
            0 <= i < s2.local.len() && (#[trigger] s2.local[i]).sync_status
                == SyncStatus::New implies !s2.has_mirror(s2.local[i].login.guid) by {
            let i0 = if i < at {
                i
            } else {
                i + 1
            };
            assert(!s.has_mirror(s.local[i0].login.guid));
            assert(s.local[i0].login.guid != g);
        }
    }
}

/// Whether `s2` has the mirror rows of `s` but for the record `g`, of which it has no row or
/// one that is not overridden, and no local row for `g` while every other record has a local
/// row in both or in neither.
pub open spec fn mirror_follows(s: StoreView, s2: StoreView, g: Seq<char>) -> bool {
    &&& forall|x: Seq<char>| s2.has_local(x) <==> (s.has_local(x) && x != g)
    &&& forall|x: Seq<char>| x != g ==> (s2.has_mirror(x) <==> s.has_mirror(x))
    &&& forall|i: int, j: int|
        0 <= i < j < s2.mirror.len() ==> (#[trigger] s2.mirror[i]).login.guid != (
        #[trigger] s2.mirror[j]).login.guid
    &&& forall|j: int|
        0 <= j < s2.mirror.len() ==> (#[trigger] s2.mirror[j]).login.guid.len() > 0 && (
        s2.mirror[j].is_overridden <==> s2.has_local(s2.mirror[j].login.guid))
}

/// The mirror follows where the row of the record leaves it.
proof fn lemma_mirror_removed(s: StoreView, s2: StoreView, g: Seq<char>, j: int)
    requires
        s.wf(),
        0 <= j < s.mirror.len(),
        s.mirror[j].login.guid == g,
        s2.mirror == s.mirror.remove(j),
        forall|x: Seq<char>| s2.has_local(x) <==> (s.has_local(x) && x != g),
    ensures
        mirror_follows(s, s2, g),
{
    assert forall|k: int| 0 <= k < s2.mirror.len() implies (#[trigger] s2.mirror[k]) == (if k < j {
        s.mirror[k]
    } else {
        s.mirror[k + 1]
    }) by {}
    assert forall|x: Seq<char>| x != g implies (s2.has_mirror(x) <==> s.has_mirror(x)) by {
        if s2.has_mirror(x) {
            let k = choose|k: int|
                0 <= k < s2.mirror.len() && (#[trigger] s2.mirror[k]).login.guid == x;
            let k0 = if k < j {
                k
            } else {
                k + 1
            };
            assert(s.mirror[k0].login.guid == x);
        }
        if s.has_mirror(x) {
            let k = choose|k: int| 0 <= k < s.mirror.len() && (#[trigger] s.mirror[k]).login.guid == x;
            let k1 = if k < j {
                k
            } else {
                k - 1
            };
            assert(s2.mirror[k1].login.guid == x);
        }
    }
    assert forall|a: int, b: int| 0 <= a < b < s2.mirror.len() implies (#[trigger] s2.mirror[a]).login.guid
        != (#[trigger] s2.mirror[b]).login.guid by {
        let a0 = if a < j {
            a
        } else {
            a + 1
        };
        let b0 = if b < j {
            b
        } else {
            b + 1
        };
        assert(s.mirror[a0].login.guid != s.mirror[b0].login.guid);
    }
    assert forall|k: int| 0 <= k < s2.mirror.len() implies (#[trigger] s2.mirror[k]).login.guid.len()
        > 0 && (s2.mirror[k].is_overridden <==> s2.has_local(s2.mirror[k].login.guid)) by {
        let k0 = if k < j {
            k
        } else {
            k + 1
        };
        assert(s.mirror[k0].login.guid.len() > 0);
        assert(s.mirror[k0].is_overridden <==> s.has_local(s.mirror[k0].login.guid));
        if k0 < j {
            assert(s.mirror[k0].login.guid != s.mirror[j].login.guid);
        } else {
            assert(s.mirror[j].login.guid != s.mirror[k0].login.guid);
        }
    }
}

/// The mirror follows where the row of the record is replaced by one that is not overridden.
proof fn lemma_mirror_replaced(s: StoreView, s2: StoreView, g: Seq<char>, j: int)
    requires
        s.wf(),
        0 <= j < s.mirror.len(),
        s.mirror[j].login.guid == g,
        s2.mirror.len() == s.mirror.len(),
        s2.mirror[j].login.guid == g,
        !s2.mirror[j].is_overridden,
        forall|k: int| 0 <= k < s.mirror.len() && k != j ==> #[trigger] s2.mirror[k] == s.mirror[k],
        forall|x: Seq<char>| s2.has_local(x) <==> (s.has_local(x) && x != g),
    ensures
        mirror_follows(s, s2, g),
{
    assert forall|k: int| 0 <= k < s.mirror.len() implies (#[trigger] s2.mirror[k]).login.guid
        == s.mirror[k].login.guid by {}
    assert forall|x: Seq<char>| x != g implies (s2.has_mirror(x) <==> s.has_mirror(x)) by {
        if s2.has_mirror(x) {
            let k = choose|k: int|
                0 <= k < s2.mirror.len() && (#[trigger] s2.mirror[k]).login.guid == x;
            assert(s.mirror[k].login.guid == x);
        }
        if s.has_mirror(x) {
            let k = choose|k: int| 0 <= k < s.mirror.len() && (#[trigger] s.mirror[k]).login.guid == x;
            assert(s2.mirror[k].login.guid == x);
        }
    }
    assert forall|a: int, b: int| 0 <= a < b < s2.mirror.len() implies (#[trigger] s2.mirror[a]).login.guid
        != (#[trigger] s2.mirror[b]).login.guid by {
        assert(s.mirror[a].login.guid != s.mirror[b].login.guid);
    }
    assert forall|k: int| 0 <= k < s2.mirror.len() implies (#[trigger] s2.mirror[k]).login.guid.len()
        > 0 && (s2.mirror[k].is_overridden <==> s2.has_local(s2.mirror[k].login.guid)) by {
        assert(s.mirror[k].login.guid.len() > 0);
        assert(s.mirror[k].is_overridden <==> s.has_local(s.mirror[k].login.guid));
        if k != j {
            s.lemma_mirror_index(k);
        }
    }
}

/// The mirror follows where it stays as it is and has no row of the record.
proof fn lemma_mirror_kept(s: StoreView, s2: StoreView, g: Seq<char>)
    requires
        s.wf(),
        !s.has_mirror(g),
        s2.mirror == s.mirror,
        forall|x: Seq<char>| s2.has_local(x) <==> (s.has_local(x) && x != g),
    ensures
        mirror_follows(s, s2, g),
{
    assert forall|x: Seq<char>| s2.has_mirror(x) <==> s.has_mirror(x) by {}
    assert forall|k: int| 0 <= k < s2.mirror.len() implies (#[trigger] s2.mirror[k]).login.guid.len()
        > 0 && (s2.mirror[k].is_overridden <==> s2.has_local(s2.mirror[k].login.guid)) by {
        assert(s.mirror[k].login.guid.len() > 0);
        assert(s.mirror[k].is_overridden <==> s.has_local(s.mirror[k].login.guid));
    }
}

/// The mirror follows where a row of the record that is not overridden is added to it.
proof fn lemma_mirror_added(s: StoreView, s2: StoreView, g: Seq<char>)
    requires
        s.wf(),
        g.len() > 0,
        !s.has_mirror(g),
        s2.mirror.len() == s.mirror.len() + 1,
        forall|k: int| 0 <= k < s.mirror.len() ==> #[trigger] s2.mirror[k] == s.mirror[k],
        s2.mirror[s.mirror.len() as int].login.guid == g,
        !s2.mirror[s.mirror.len() as int].is_overridden,
        forall|x: Seq<char>| s2.has_local(x) <==> (s.has_local(x) && x != g),
    ensures
        mirror_follows(s, s2, g),
{
    let n = s.mirror.len() as int;
    assert forall|x: Seq<char>| x != g implies (s2.has_mirror(x) <==> s.has_mirror(x)) by {
        if s2.has_mirror(x) {
            let k = choose|k: int|
                0 <= k < s2.mirror.len() && (#[trigger] s2.mirror[k]).login.guid == x;
            assert(k < n);
            assert(s.mirror[k].login.guid == x);
        }
        if s.has_mirror(x) {
            let k = choose|k: int| 0 <= k < s.mirror.len() && (#[trigger] s.mirror[k]).login.guid == x;
            assert(s2.mirror[k].login.guid == x);
        }
    }
    assert forall|a: int, b: int| 0 <= a < b < s2.mirror.len() implies (#[trigger] s2.mirror[a]).login.guid
        != (#[trigger] s2.mirror[b]).login.guid by {
        if b < n {
            assert(s.mirror[a].login.guid != s.mirror[b].login.guid);
        } else {
            assert(s.mirror[a].login.guid != g);
        }
    }
    assert forall|k: int| 0 <= k < s2.mirror.len() implies (#[trigger] s2.mirror[k]).login.guid.len()
        > 0 && (s2.mirror[k].is_overridden <==> s2.has_local(s2.mirror[k].login.guid)) by {
        if k < n {
            assert(s.mirror[k].login.guid.len() > 0);
            assert(s.mirror[k].is_overridden <==> s.has_local(s.mirror[k].login.guid));
            assert(s.mirror[k].login.guid != g);
        }
    }
}

/// The arrival of a login from the server leaves the store in order.
pub proof fn lemma_received_wf(s: StoreView, l: LoginView, server_modified: i64)
    requires
        s.wf(),
    ensures
        s.received(l, server_modified).wf(),
{
    let g = l.guid;
    if g.len() > 0 {
        let s2 = s.received(l, server_modified);
        if s.has_local(g) {
            s.lemma_local_index(s.local_index(g));
        }
        if s.has_mirror(g) {
            s.lemma_mirror_index(s.mirror_index(g));
        }
        let n = s.mirror.len() as int;
        assert forall|k: int| 0 <= k < s.local.len() implies (#[trigger] s2.local[k]).login
            == s.local[k].login && s2.local[k].is_deleted == s.local[k].is_deleted by {}
        assert forall|x: Seq<char>| s2.has_local(x) <==> s.has_local(x) by {
            if s2.has_local(x) {
                let k = choose|k: int|
                    0 <= k < s2.local.len() && (#[trigger] s2.local[k]).login.guid == x;
                assert(s.local[k].login.guid == x);
            }
            if s.has_local(x) {
                let k = choose|k: int| 0 <= k < s.local.len() && (#[trigger] s.local[k]).login.guid == x;
                assert(s2.local[k].login.guid == x);
            }
        }
        assert forall|k: int| 0 <= k < n implies (#[trigger] s2.mirror[k]).login.guid
            == s.mirror[k].login.guid && s2.mirror[k].is_overridden == s.mirror[k].is_overridden by {}
        assert forall|x: Seq<char>| s2.has_mirror(x) <==> (s.has_mirror(x) || x == g) by {
            if s2.has_mirror(x) {
                let k = choose|k: int|
                    0 <= k < s2.mirror.len() && (#[trigger] s2.mirror[k]).login.guid == x;
                if k < n {
                    assert(s.mirror[k].login.guid == x);
                }
            }
            if s.has_mirror(x) {
                let k = choose|k: int| 0 <= k < s.mirror.len() && (#[trigger] s.mirror[k]).login.guid == x;
                assert(s2.mirror[k].login.guid == x);
            }
            if x == g {
                if s.has_mirror(g) {
                    assert(s2.mirror[s.mirror_index(g)].login.guid == g);
                } else {
                    assert(s2.mirror[n].login.guid == g);
                }
            }
        }
        assert forall|i: int, j: int| 0 <= i < j < s2.local.len() implies (#[trigger] s2.local[i]).login.guid
            != (#[trigger] s2.local[j]).login.guid by {
            assert(s.local[i].login.guid != s.local[j].login.guid);
        }
        assert forall|i: int, j: int| 0 <= i < j < s2.mirror.len() implies (#[trigger] s2.mirror[i]).login.guid
            != (#[trigger] s2.mirror[j]).login.guid by {
            if j < n {
                assert(s.mirror[i].login.guid != s.mirror[j].login.guid);
            } else {
                assert(s.mirror[i].login.guid != g);
            }
        }
        assert forall|j: int| 0 <= j < s2.mirror.len() implies ((#[trigger] s2.mirror[j]).is_overridden
            <==> s2.has_local(s2.mirror[j].login.guid)) by {
            if j < n {
                assert(s.mirror[j].is_overridden <==> s.has_local(s.mirror[j].login.guid));
            }
        }
        assert forall|i: int|
            0 <= i < s2.local.len() && (#[trigger] s2.local[i]).sync_status
                == SyncStatus::New implies !s2.has_mirror(s2.local[i].login.guid) by {
            assert(s2.local[i] == s.local[i]);
            assert(!s.has_mirror(s.local[i].login.guid));
            if s.local[i].login.guid == g {
                s.lemma_local_index(i);
            }
        }
        assert forall|i: int| 0 <= i < s2.local.len() implies (#[trigger] s2.local[i]).login.guid.len()
            > 0 && (s2.local[i].is_deleted ==> is_scrubbed(s2.local[i].login)) by {
            assert(s.local[i].login.guid.len() > 0);
            assert(s.local[i].is_deleted ==> is_scrubbed(s.local[i].login));
        }
        assert forall|j: int| 0 <= j < s2.mirror.len() implies (#[trigger] s2.mirror[j]).login.guid.len()
            > 0 by {
            if j < n {
                assert(s.mirror[j].login.guid.len() > 0);
            }
        }
    }
}

} // verus!
