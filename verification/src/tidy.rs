//! Proofs that the operations keep a tidy store tidy: its visible logins stay canonical, and
//! none of them comes to duplicate another.

use vstd::prelude::*;
use crate::guid::valid_for_sync_server;
use crate::invariants::{is_wipe_tombstone, lemma_marked, lemma_wipe_tombstones};
use crate::login::{fixed, is_canonical, is_dupe_of, lemma_fixed_is_canonical, LoginView};
use crate::model::{import_guid, new_row, overlay_of, touched, updated, wipe_tombstones, with_defaults, ImportOutcomeView, StoreView};

verus! {

/// Whether two logins agree in every text field other than the identifier.
pub open spec fn same_texts(a: LoginView, b: LoginView) -> bool {
    &&& a.hostname == b.hostname
    &&& a.form_submit_url == b.form_submit_url
    &&& a.http_realm == b.http_realm
    &&& a.username == b.username
    &&& a.password == b.password
    &&& a.username_field == b.username_field
    &&& a.password_field == b.password_field
}

/// Whether a login is canonical depends on its texts alone.
pub proof fn lemma_canonical_by_texts(a: LoginView, b: LoginView)
    requires
        same_texts(a, b),
        is_canonical(a),
    ensures
        is_canonical(b),
{
}

/// Duplication is mutual.
pub proof fn lemma_dupe_symmetric(a: LoginView, b: LoginView)
    ensures
        is_dupe_of(a, b) == is_dupe_of(b, a),
{
}

/// A login has a duplicate in the store exactly when a visible login duplicates it.
pub proof fn lemma_dupe_exists(s: StoreView, c: LoginView)
    ensures
        s.dupe_exists(c) <==> exists|b: LoginView| #[trigger] s.shows(b) && is_dupe_of(c, b),
{
    if s.dupe_exists(c) {
        if exists|i: int|
            0 <= i < s.local.len() && !(#[trigger] s.local[i]).is_deleted && is_dupe_of(
                c,
                s.local[i].login,
            ) {
            let i = choose|i: int|
                0 <= i < s.local.len() && !(#[trigger] s.local[i]).is_deleted && is_dupe_of(
                    c,
                    s.local[i].login,
                );
            assert(s.shows(s.local[i].login));
        } else {
            let i = choose|i: int|
                0 <= i < s.mirror.len() && !(#[trigger] s.mirror[i]).is_overridden && is_dupe_of(
                    c,
                    s.mirror[i].login,
                );
            assert(s.shows(s.mirror[i].login));
        }
    }
    if exists|b: LoginView| #[trigger] s.shows(b) && is_dupe_of(c, b) {
        let b = choose|b: LoginView| #[trigger] s.shows(b) && is_dupe_of(c, b);
        assert(s.dupe_exists(c));
    }
}

/// In a store that is in order, a visible login is the one that is looked up under its
/// identifier.
pub proof fn lemma_shown_is_looked_up(s: StoreView, l: LoginView)
    requires
        s.wf(),
        s.shows(l),
    ensures
        s.lookup(l.guid) == Some(l),
{
    if exists|i: int|
        0 <= i < s.local.len() && !(#[trigger] s.local[i]).is_deleted && s.local[i].login == l {
        let i = choose|i: int|
            0 <= i < s.local.len() && !(#[trigger] s.local[i]).is_deleted && s.local[i].login == l;
        s.lemma_local_index(i);
    } else {
        let j = choose|j: int|
            0 <= j < s.mirror.len() && !(#[trigger] s.mirror[j]).is_overridden && s.mirror[j].login
                == l;
        s.lemma_mirror_index(j);
        assert(!s.has_local(l.guid));
    }
}

/// In a store that is in order, the login that is looked up under an identifier is visible.
pub proof fn lemma_looked_up_is_shown(s: StoreView, g: Seq<char>)
    requires
        s.wf(),
        s.lookup(g) is Some,
    ensures
        s.shows(s.lookup(g)->0),
        s.lookup(g)->0.guid == g,
{
    if s.has_local(g) && !s.local_row(g).is_deleted {
        let i = s.local_index(g);
        assert(!s.local[i].is_deleted && s.local[i].login == s.lookup(g)->0);
    } else {
        let j = s.mirror_index(g);
        assert(!s.mirror[j].is_overridden && s.mirror[j].login == s.lookup(g)->0);
    }
}

/// Whether every login that `after` shows is one that `before` shows under another identifier
/// than `g`, or is the login `l`.
pub open spec fn shows_at_most(before: StoreView, after: StoreView, g: Seq<char>, l: LoginView) -> bool {
    forall|x: LoginView| #[trigger] after.shows(x) ==> (before.shows(x) && x.guid != g) || x == l
}

/// A store that shows nothing new but a canonical login that has no duplicate stays tidy.
pub proof fn lemma_tidy_step(before: StoreView, after: StoreView, l: LoginView)
    requires
        before.tidy(),
        shows_at_most(before, after, l.guid, l),
        is_canonical(l),
        forall|b: LoginView| #[trigger] before.shows(b) && b.guid != l.guid ==> !is_dupe_of(l, b),
    ensures
        after.tidy(),
{
    assert forall|a: LoginView, b: LoginView| #[trigger]
        after.shows(a) && #[trigger] after.shows(b) implies !is_dupe_of(a, b) by {
        lemma_dupe_symmetric(a, b);
        if a == l && b != l {
            assert(before.shows(b));
        } else if b == l && a != l {
            assert(before.shows(a));
        } else if a != l && b != l {
            assert(before.shows(a) && before.shows(b));
        }
    }
}

/// A store that shows nothing new stays tidy.
pub proof fn lemma_tidy_shrinks(before: StoreView, after: StoreView)
    requires
        before.tidy(),
        forall|x: LoginView| #[trigger] after.shows(x) ==> before.shows(x),
    ensures
        after.tidy(),
{
    assert forall|a: LoginView, b: LoginView| #[trigger]
        after.shows(a) && #[trigger] after.shows(b) implies !is_dupe_of(a, b) by {
        assert(before.shows(a) && before.shows(b));
    }
}

/// After a local row was put in front of the record `g`, the store shows nothing new but the
/// login of that row.
pub proof fn lemma_put_shows(s: StoreView, g: Seq<char>, row: crate::row::LocalView)
    requires
        s.wf(),
        s.has_local(g) || s.has_mirror(g),
        row.login.guid == g,
    ensures
        shows_at_most(
            s,
            StoreView { local: crate::invariants::local_put(s, g, row), mirror: s.marked(g), ..s },
            g,
            row.login,
        ),
{
    let s2 = StoreView { local: crate::invariants::local_put(s, g, row), mirror: s.marked(g), ..s };
    lemma_marked(s, g);
    assert forall|x: LoginView| #[trigger] s2.shows(x) implies (s.shows(x) && x.guid != g) || x
        == row.login by {
        if exists|i: int|
            0 <= i < s2.local.len() && !(#[trigger] s2.local[i]).is_deleted && s2.local[i].login == x {
            let i = choose|i: int|
                0 <= i < s2.local.len() && !(#[trigger] s2.local[i]).is_deleted && s2.local[i].login
                    == x;
            if s.has_local(g) {
                let at = s.local_index(g);
                s.lemma_local_index(at);
                if i != at {
                    assert(s2.local[i] == s.local[i]);
                    s.lemma_local_index(i);
                }
            } else {
                if i < s.local.len() {
                    assert(s2.local[i] == s.local[i]);
                    assert(s.local[i].login.guid != g);
                }
            }
        } else {
            let j = choose|j: int|
                0 <= j < s2.mirror.len() && !(#[trigger] s2.mirror[j]).is_overridden
                    && s2.mirror[j].login == x;
            assert(s.mirror[j].login.guid != g);
            assert(!s.mirror[j].is_overridden && s.mirror[j].login == x);
        }
    }
}

/// After a local row was added for a record that is in neither table, the store shows nothing
/// new but the login of that row.
pub proof fn lemma_insert_shows(s: StoreView, row: crate::row::LocalView)
    requires
        s.wf(),
        !s.has_local(row.login.guid),
        !s.has_mirror(row.login.guid),
    ensures
        shows_at_most(
            s,
            StoreView { local: s.local.push(row), ..s },
            row.login.guid,
            row.login,
        ),
{
    let s2 = StoreView { local: s.local.push(row), ..s };
    assert forall|x: LoginView| #[trigger] s2.shows(x) implies (s.shows(x) && x.guid
        != row.login.guid) || x == row.login by {
        if exists|i: int|
            0 <= i < s2.local.len() && !(#[trigger] s2.local[i]).is_deleted && s2.local[i].login == x {
            let i = choose|i: int|
                0 <= i < s2.local.len() && !(#[trigger] s2.local[i]).is_deleted && s2.local[i].login
                    == x;
            if i < s.local.len() {
                assert(s2.local[i] == s.local[i]);
                assert(s.local[i].login.guid != row.login.guid);
            }
        } else {
            let j = choose|j: int|
                0 <= j < s2.mirror.len() && !(#[trigger] s2.mirror[j]).is_overridden
                    && s2.mirror[j].login == x;
            assert(s.mirror[j].login.guid != row.login.guid);
        }
    }
}

/// `add` keeps a tidy store tidy.
pub proof fn lemma_add_tidy(s: StoreView, l: LoginView, now: i64, fresh: Seq<char>)
    requires
        s.wf(),
        s.tidy(),
        s.add(l, now, fresh) is Ok,
    ensures
        s.add(l, now, fresh)->Ok_0.0.tidy(),
{
    let f = fixed(l)->Ok_0;
    let stored = with_defaults(f, now, fresh);
    lemma_fixed_is_canonical(l);
    lemma_canonical_by_texts(f, stored);
    lemma_insert_shows(s, new_row(stored, now));
    lemma_dupe_exists(s, f);
    assert forall|b: LoginView| #[trigger] s.shows(b) && b.guid != stored.guid implies !is_dupe_of(
        stored,
        b,
    ) by {
        lemma_shown_is_looked_up(s, b);
        s.lemma_visible_lookup(b.guid);
        if is_dupe_of(stored, b) {
            assert(b.guid != f.guid) by {
                if f.guid.len() > 0 {
                } else {
                    assert(s.lookup(b.guid) is Some);
                    assert(s.has_local(b.guid) || s.has_mirror(b.guid));
                    lemma_guid_present(s, b.guid);
                }
            }
            assert(is_dupe_of(f, b));
        }
    }
    lemma_tidy_step(s, s.add(l, now, fresh)->Ok_0.0, stored);
}

/// An identifier that is in a store that is in order is not empty.
pub proof fn lemma_guid_present(s: StoreView, g: Seq<char>)
    requires
        s.wf(),
        s.has_local(g) || s.has_mirror(g),
    ensures
        g.len() > 0,
{
    if s.has_local(g) {
        let i = s.local_index(g);
        assert(s.local[i].login.guid.len() > 0);
    } else {
        let j = s.mirror_index(g);
        assert(s.mirror[j].login.guid.len() > 0);
    }
}

/// Whether a sync server accepts the identifier of every visible record.
pub open spec fn shown_ids_valid(s: StoreView) -> bool {
    forall|b: LoginView| #[trigger] s.shows(b) ==> valid_for_sync_server(b.guid)
}

/// The import of one login keeps a store tidy in which a sync server accepts the identifier
/// of every visible record, and the identifiers stay such.
pub proof fn lemma_import_one_tidy(s: StoreView, l: LoginView, now: i64, fresh: Seq<char>)
    requires
        s.wf(),
        s.tidy(),
        shown_ids_valid(s),
        valid_for_sync_server(l.guid) || valid_for_sync_server(fresh),
    ensures
        s.import_one(l, now, fresh).0.tidy(),
        shown_ids_valid(s.import_one(l, now, fresh).0),
{
    if s.import_one(l, now, fresh).1 == ImportOutcomeView::Imported {
        let f = fixed(l)->Ok_0;
        let stored = LoginView { guid: import_guid(f, fresh), ..f };
        lemma_fixed_is_canonical(l);
        lemma_canonical_by_texts(f, stored);
        lemma_insert_shows(s, new_row(stored, now));
        lemma_dupe_exists(s, f);
        assert forall|b: LoginView| #[trigger] s.shows(b) && b.guid != stored.guid implies !is_dupe_of(
            stored,
            b,
        ) by {
            if is_dupe_of(stored, b) {
                assert(valid_for_sync_server(b.guid));
                assert(b.guid != f.guid);
                assert(is_dupe_of(f, b));
            }
        }
        lemma_tidy_step(s, s.import_one(l, now, fresh).0, stored);
        let s2 = s.import_one(l, now, fresh).0;
        assert forall|b: LoginView| #[trigger] s2.shows(b) implies valid_for_sync_server(b.guid) by {
            if b != stored {
                assert(s.shows(b));
            }
        }
    }
}

/// `update` keeps a tidy store tidy.
pub proof fn lemma_update_tidy(s: StoreView, l: LoginView, now: i64)
    requires
        s.wf(),
        s.tidy(),
        s.update(l, now) is Ok,
    ensures
        s.update(l, now)->Ok_0.tidy(),
{
    let f = fixed(l)->Ok_0;
    let g = f.guid;
    let base = if s.has_local(g) {
        s.local_row(g)
    } else {
        overlay_of(s.mirror_row(g))
    };
    let row = updated(base, f, now);
    if s.has_local(g) {
        s.lemma_local_index(s.local_index(g));
    } else {
        s.lemma_mirror_index(s.mirror_index(g));
    }
    lemma_fixed_is_canonical(l);
    lemma_canonical_by_texts(f, row.login);
    lemma_put_shows(s, g, row);
    lemma_dupe_exists(s, f);
    assert forall|b: LoginView| #[trigger] s.shows(b) && b.guid != g implies !is_dupe_of(
        row.login,
        b,
    ) by {
        if is_dupe_of(row.login, b) {
            assert(is_dupe_of(f, b));
        }
    }
    lemma_tidy_step(s, s.update(l, now)->Ok_0, row.login);
}

/// `touch` keeps a tidy store tidy.
pub proof fn lemma_touch_tidy(s: StoreView, g: Seq<char>, now: i64)
    requires
        s.wf(),
        s.tidy(),
        s.touch(g, now) is Ok,
    ensures
        s.touch(g, now)->Ok_0.tidy(),
{
    let s2 = s.touch(g, now)->Ok_0;
    if s.has_local(g) && s.local_row(g).is_deleted {
        lemma_marked(s, g);
        assert forall|x: LoginView| #[trigger] s2.shows(x) implies s.shows(x) by {
            if exists|i: int|
                0 <= i < s2.local.len() && !(#[trigger] s2.local[i]).is_deleted && s2.local[i].login
                    == x {
                let i = choose|i: int|
                    0 <= i < s2.local.len() && !(#[trigger] s2.local[i]).is_deleted
                        && s2.local[i].login == x;
                assert(!s.local[i].is_deleted && s.local[i].login == x);
            } else {
                let j = choose|j: int|
                    0 <= j < s2.mirror.len() && !(#[trigger] s2.mirror[j]).is_overridden
                        && s2.mirror[j].login == x;
                assert(!s.mirror[j].is_overridden && s.mirror[j].login == x);
            }
        }
        lemma_tidy_shrinks(s, s2);
    } else {
        let before = if s.has_local(g) {
            s.local_row(g).login
        } else {
            s.mirror_row(g).login
        };
        let base = if s.has_local(g) {
            s.local_row(g)
        } else {
            overlay_of(s.mirror_row(g))
        };
        let row = touched(base, now);
        if s.has_local(g) {
            let at = s.local_index(g);
            s.lemma_local_index(at);
            assert(!s.local[at].is_deleted && s.local[at].login == before);
        } else {
            let j = s.mirror_index(g);
            s.lemma_mirror_index(j);
            assert(!s.mirror[j].is_overridden && s.mirror[j].login == before);
        }
        assert(s.shows(before));
        lemma_canonical_by_texts(before, row.login);
        lemma_put_shows(s, g, row);
        assert forall|b: LoginView| #[trigger] s.shows(b) && b.guid != g implies !is_dupe_of(
            row.login,
            b,
        ) by {
            if is_dupe_of(row.login, b) {
                assert(is_dupe_of(before, b));
            }
        }
        lemma_tidy_step(s, s2, row.login);
    }
}

/// To give a record of a store that is in order its local row keeps a tidy store tidy: the
/// store shows what it showed.
pub proof fn lemma_with_overlay_tidy(s: StoreView, g: Seq<char>)
    requires
        s.wf(),
        s.tidy(),
        s.with_overlay(g) is Ok,
    ensures
        s.with_overlay(g)->Ok_0.tidy(),
{
    let s2 = s.with_overlay(g)->Ok_0;
    if !s.has_local(g) {
        let j = s.mirror_index(g);
        s.lemma_mirror_index(j);
        assert forall|x: LoginView| #[trigger] s2.shows(x) implies s.shows(x) by {
            if exists|i: int|
                0 <= i < s2.local.len() && !(#[trigger] s2.local[i]).is_deleted && s2.local[i].login
                    == x {
                let i = choose|i: int|
                    0 <= i < s2.local.len() && !(#[trigger] s2.local[i]).is_deleted
                        && s2.local[i].login == x;
                if i < s.local.len() {
                    assert(!s.local[i].is_deleted && s.local[i].login == x);
                } else {
                    assert(!s.has_local(s.mirror[j].login.guid));
                    assert(!s.mirror[j].is_overridden && s.mirror[j].login == x);
                }
            } else {
                let k = choose|k: int|
                    0 <= k < s2.mirror.len() && !(#[trigger] s2.mirror[k]).is_overridden
                        && s2.mirror[k].login == x;
                assert(!s.mirror[k].is_overridden && s.mirror[k].login == x);
            }
        }
        lemma_tidy_shrinks(s, s2);
    }
}

/// To mark the mirror row of a record keeps a tidy store tidy: the store shows nothing that
/// it did not show.
pub proof fn lemma_with_mark_tidy(s: StoreView, g: Seq<char>)
    requires
        s.wf_but_mark(g),
        s.tidy(),
    ensures
        s.with_mark(g).tidy(),
{
    let s2 = s.with_mark(g);
    if s.has_mirror(g) {
        s.lemma_mirror_index(s.mirror_index(g));
    }
    assert forall|x: LoginView| #[trigger] s2.shows(x) implies s.shows(x) by {
        if exists|i: int|
            0 <= i < s2.local.len() && !(#[trigger] s2.local[i]).is_deleted && s2.local[i].login == x {
            let i = choose|i: int|
                0 <= i < s2.local.len() && !(#[trigger] s2.local[i]).is_deleted && s2.local[i].login
                    == x;
            assert(!s.local[i].is_deleted && s.local[i].login == x);
        } else {
            let k = choose|k: int|
                0 <= k < s2.mirror.len() && !(#[trigger] s2.mirror[k]).is_overridden
                    && s2.mirror[k].login == x;
            assert(!s.mirror[k].is_overridden && s.mirror[k].login == x);
        }
    }
    lemma_tidy_shrinks(s, s2);
}

/// `delete` keeps a tidy store tidy.
pub proof fn lemma_delete_tidy(s: StoreView, g: Seq<char>, now: i64)
    requires
        s.wf(),
        s.tidy(),
    ensures
        s.delete(g, now).tidy(),
{
    let s2 = s.delete(g, now);
    lemma_marked(s, g);
    assert forall|x: LoginView| #[trigger] s2.shows(x) implies s.shows(x) by {
        if exists|i: int|
            0 <= i < s2.local.len() && !(#[trigger] s2.local[i]).is_deleted && s2.local[i].login == x {
            let i = choose|i: int|
                0 <= i < s2.local.len() && !(#[trigger] s2.local[i]).is_deleted && s2.local[i].login
                    == x;
            assert(i < s.local.len() && s2.local[i] == s.local[i]);
        } else {
            let j = choose|j: int|
                0 <= j < s2.mirror.len() && !(#[trigger] s2.mirror[j]).is_overridden
                    && s2.mirror[j].login == x;
            assert(!s.mirror[j].is_overridden && s.mirror[j].login == x);
        }
    }
    lemma_tidy_shrinks(s, s2);
}

/// After `wipe` the store shows nothing.
pub proof fn lemma_wipe_shows_nothing(s: StoreView, now: i64)
    requires
        s.wf(),
    ensures
        forall|x: LoginView| !s.wipe(now).shows(x),
        s.wipe(now).visible() == Seq::<LoginView>::empty(),
        s.wipe(now).tidy(),
{
    let s2 = s.wipe(now);
    let n = s.local.len() as int;
    let t = wipe_tombstones(s, s.mirror, now);
    lemma_wipe_tombstones(s, s.mirror, now);
    assert forall|k: int| 0 <= k < s2.local.len() implies (#[trigger] s2.local[k]).is_deleted by {
        if k >= n {
            assert(s2.local[k] == t[k - n]);
            assert(is_wipe_tombstone(s, s.mirror, t[k - n]));
        }
    }
    assert forall|x: LoginView| !s2.shows(x) by {
        if exists|j: int|
            0 <= j < s2.mirror.len() && !(#[trigger] s2.mirror[j]).is_overridden && s2.mirror[j].login
                == x {
            let j = choose|j: int|
                0 <= j < s2.mirror.len() && !(#[trigger] s2.mirror[j]).is_overridden
                    && s2.mirror[j].login == x;
            assert(s2.mirror[j].is_overridden);
        }
    }
    lemma_hidden_rows(s2);
}

/// A store whose local rows are all tombstones and whose mirror rows are all overridden has
/// no visible login.
pub proof fn lemma_hidden_rows(s: StoreView)
    requires
        forall|k: int| 0 <= k < s.local.len() ==> (#[trigger] s.local[k]).is_deleted,
        forall|k: int| 0 <= k < s.mirror.len() ==> (#[trigger] s.mirror[k]).is_overridden,
    ensures
        s.visible() == Seq::<LoginView>::empty(),
{
    crate::seqs::lemma_filter_map_members(
        s.local,
        |r: crate::row::LocalView|
            if r.is_deleted {
                None
            } else {
                Some(r.login)
            },
    );
    crate::seqs::lemma_filter_map_members(
        s.mirror,
        |r: crate::row::MirrorView|
            if r.is_overridden {
                None
            } else {
                Some(r.login)
            },
    );
    let keep_local = |r: crate::row::LocalView|
        if r.is_deleted {
            None
        } else {
            Some(r.login)
        };
    let keep_mirror = |r: crate::row::MirrorView|
        if r.is_overridden {
            None
        } else {
            Some(r.login)
        };
    let a = s.local.filter_map(keep_local);
    let b = s.mirror.filter_map(keep_mirror);
    if a.len() > 0 {
        let i = choose|i: int| 0 <= i < s.local.len() && keep_local(#[trigger] s.local[i]) == Some(a[0]);
        assert(s.local[i].is_deleted);
    }
    if b.len() > 0 {
        let i = choose|i: int|
            0 <= i < s.mirror.len() && keep_mirror(#[trigger] s.mirror[i]) == Some(b[0]);
        assert(s.mirror[i].is_overridden);
    }
    assert(a + b =~= Seq::<LoginView>::empty());
}

/// The confirmation of a local row by the server keeps a tidy store tidy: the store shows
/// nothing that it did not show before.
pub proof fn lemma_uploaded_tidy(s: StoreView, g: Seq<char>, server_modified: i64)
    requires
        s.wf(),
        s.tidy(),
    ensures
        s.uploaded(g, server_modified).tidy(),
{
    let s2 = s.uploaded(g, server_modified);
    if s.has_local(g) {
        let at = s.local_index(g);
        s.lemma_local_index(at);
        let r = s.local[at];
        if s.has_mirror(g) {
            s.lemma_mirror_index(s.mirror_index(g));
        }
        assert forall|x: LoginView| #[trigger] s2.shows(x) implies s.shows(x) by {
            if exists|i: int|
                0 <= i < s2.local.len() && !(#[trigger] s2.local[i]).is_deleted && s2.local[i].login
                    == x {
                let i = choose|i: int|
                    0 <= i < s2.local.len() && !(#[trigger] s2.local[i]).is_deleted
                        && s2.local[i].login == x;
                let i0 = if i < at {
                    i
                } else {
                    i + 1
                };
                assert(!s.local[i0].is_deleted && s.local[i0].login == x);
            } else {
                let k = choose|k: int|
                    0 <= k < s2.mirror.len() && !(#[trigger] s2.mirror[k]).is_overridden
                        && s2.mirror[k].login == x;
                if r.is_deleted {
                    if s.has_mirror(g) {
                        let j = s.mirror_index(g);
                        let k0 = if k < j {
                            k
                        } else {
                            k + 1
                        };
                        assert(!s.mirror[k0].is_overridden && s.mirror[k0].login == x);
                    } else {
                        assert(!s.mirror[k].is_overridden && s.mirror[k].login == x);
                    }
                } else {
                    let j = if s.has_mirror(g) {
                        s.mirror_index(g)
                    } else {
                        s.mirror.len() as int
                    };
                    if k == j {
                        assert(!s.local[at].is_deleted && s.local[at].login == x);
                    } else {
                        assert(!s.mirror[k].is_overridden && s.mirror[k].login == x);
                    }
                }
            }
        }
        lemma_tidy_shrinks(s, s2);
    }
}

} // verus!
