//! The store as a mathematical value, and what each operation makes of it.

use vstd::prelude::*;
use crate::error::{error_label, ErrorView, InvalidLogin};
use crate::guid::valid_for_sync_server;
use crate::metrics::{metrics_of, MetricsView};
use crate::login::{blank_login, fixed, is_canonical, is_dupe_of, same_target, LoginView};
use crate::row::{LocalView, MirrorView, SyncStatus};
use crate::text::has_infix;
use crate::urls::{host_port, host_within, parsed_host, url_host, HostView};

verus! {

/// The two tables and the sync metadata.
pub struct StoreView {
    /// The local overlay, in the order in which the rows were inserted.
    pub local: Seq<LocalView>,
    /// The mirror of the server, in the order in which the rows were inserted.
    pub mirror: Seq<MirrorView>,
    /// The sync metadata, by key.
    pub meta: Map<Seq<char>, Seq<char>>,
}

/// How the import of one login ended.
pub enum ImportOutcomeView {
    /// The login was stored.
    Imported,
    /// The login is not valid or duplicates a visible login; nothing was stored.
    FailedFixup(ErrorView),
    /// The login could not be inserted; nothing was stored.
    FailedInsert(ErrorView),
}

/// The labels of the imports among `outcomes` that failed in the fix-up phase, in order.
pub open spec fn fixup_labels(outcomes: Seq<ImportOutcomeView>) -> Seq<Seq<char>> {
    outcomes.filter_map(
        |o: ImportOutcomeView|
            match o {
                ImportOutcomeView::FailedFixup(e) => Some(error_label(e)),
                _ => None,
            },
    )
}

/// The labels of the imports among `outcomes` that failed in the insert phase, in order.
pub open spec fn insert_labels(outcomes: Seq<ImportOutcomeView>) -> Seq<Seq<char>> {
    outcomes.filter_map(
        |o: ImportOutcomeView|
            match o {
                ImportOutcomeView::FailedInsert(e) => Some(error_label(e)),
                _ => None,
            },
    )
}

/// One more use, unless the counter is at its largest value already.
pub open spec fn bumped(n: i64) -> i64 {
    if n < i64::MAX {
        (n + 1) as i64
    } else {
        n
    }
}

/// The status of a row after a local change: a synced row is changed, any other stays.
pub open spec fn raised(s: SyncStatus) -> SyncStatus {
    match s {
        SyncStatus::Synced => SyncStatus::Changed,
        SyncStatus::Changed => SyncStatus::Changed,
        SyncStatus::New => SyncStatus::New,
    }
}

/// Whether the sensitive fields of a login are empty.
pub open spec fn is_scrubbed(l: LoginView) -> bool {
    l.hostname.len() == 0 && l.username.len() == 0 && l.password.len() == 0
}

/// The local row that stands for a mirror row when the record is first touched locally.
pub open spec fn overlay_of(m: MirrorView) -> LocalView {
    LocalView {
        login: m.login,
        local_modified: None,
        is_deleted: false,
        sync_status: SyncStatus::Synced,
    }
}

/// The row `r` after one more use at `now`.
pub open spec fn touched(r: LocalView, now: i64) -> LocalView {
    LocalView {
        login: LoginView {
            time_last_used: now,
            times_used: bumped(r.login.times_used),
            ..r.login
        },
        local_modified: Some(now),
        ..r
    }
}

/// The row `r` after its login was replaced by `f` at `now`. The identifier and the time of
/// creation stay; the time of the last password change moves only if the password differs.
pub open spec fn updated(r: LocalView, f: LoginView, now: i64) -> LocalView {
    LocalView {
        login: LoginView {
            guid: r.login.guid,
            time_created: r.login.time_created,
            time_last_used: now,
            time_password_changed: if r.login.password == f.password {
                r.login.time_password_changed
            } else {
                now
            },
            times_used: bumped(r.login.times_used),
            ..f
        },
        local_modified: Some(now),
        is_deleted: r.is_deleted,
        sync_status: raised(r.sync_status),
    }
}

/// The tombstone that the row `r` becomes when it is deleted at `now`.
pub open spec fn scrubbed(r: LocalView, now: i64) -> LocalView {
    LocalView {
        login: LoginView {
            hostname: Seq::empty(),
            username: Seq::empty(),
            password: Seq::empty(),
            ..r.login
        },
        local_modified: Some(now),
        is_deleted: true,
        sync_status: SyncStatus::Changed,
    }
}

/// The tombstone that is put in front of the mirror row `m` when the record is deleted at
/// `now` and has no local row: it keeps the identifier and the time of creation.
pub open spec fn tombstone_of(m: MirrorView, now: i64) -> LocalView {
    LocalView {
        login: LoginView {
            guid: m.login.guid,
            time_created: m.login.time_created,
            time_password_changed: now,
            ..blank_login()
        },
        local_modified: Some(now),
        is_deleted: true,
        sync_status: SyncStatus::Changed,
    }
}

/// The mirror row with which the server confirms the local row `r` at `server_modified`.
pub open spec fn confirmed(r: LocalView, server_modified: i64) -> MirrorView {
    MirrorView { login: r.login, server_modified, is_overridden: false }
}

/// The mirror row `m`, marked as overridden.
pub open spec fn overridden(m: MirrorView) -> MirrorView {
    MirrorView { is_overridden: true, ..m }
}

/// The login that `add` stores for the canonical login `f`: an empty identifier becomes
/// `fresh`, a time of zero becomes `now`, and a use count of zero becomes one.
pub open spec fn with_defaults(f: LoginView, now: i64, fresh: Seq<char>) -> LoginView {
    LoginView {
        guid: if f.guid.len() == 0 {
            fresh
        } else {
            f.guid
        },
        time_created: if f.time_created == 0 {
            now
        } else {
            f.time_created
        },
        time_password_changed: if f.time_password_changed == 0 {
            now
        } else {
            f.time_password_changed
        },
        time_last_used: if f.time_last_used == 0 {
            now
        } else {
            f.time_last_used
        },
        times_used: if f.times_used == 0 {
            1
        } else {
            f.times_used
        },
        ..f
    }
}

/// The row under which a login that was created locally at `now` is stored.
pub open spec fn new_row(l: LoginView, now: i64) -> LocalView {
    LocalView {
        login: l,
        local_modified: Some(now),
        is_deleted: false,
        sync_status: SyncStatus::New,
    }
}

/// The identifier under which an imported login is stored: its own where a sync server
/// accepts it, else `fresh`.
pub open spec fn import_guid(f: LoginView, fresh: Seq<char>) -> Seq<char> {
    if valid_for_sync_server(f.guid) {
        f.guid
    } else {
        fresh
    }
}

/// The logins of the rows of `rows` that are no tombstones, in order.
pub open spec fn visible_local(rows: Seq<LocalView>) -> Seq<LoginView> {
    rows.filter_map(
        |r: LocalView|
            if r.is_deleted {
                None
            } else {
                Some(r.login)
            },
    )
}

/// The logins of the rows of `rows` that are not overridden, in order.
pub open spec fn visible_mirror(rows: Seq<MirrorView>) -> Seq<LoginView> {
    rows.filter_map(
        |r: MirrorView|
            if r.is_overridden {
                None
            } else {
                Some(r.login)
            },
    )
}

/// The tombstones that `wipe` puts in front of the mirror rows `rows` of the store `s`.
pub open spec fn wipe_tombstones(s: StoreView, rows: Seq<MirrorView>, now: i64) -> Seq<LocalView> {
    rows.filter_map(
        |m: MirrorView|
            if s.has_local(m.login.guid) {
                None
            } else {
                Some(tombstone_of(m, now))
            },
    )
}

/// Whether a stored form target answers to the host and port `wanted` of the form target of a
/// login: where the login has a target with a host, the stored target is empty or holds that
/// host and port; where it has none, no target is stored.
pub open spec fn target_answers(stored: Option<Seq<char>>, wanted: Option<Seq<char>>) -> bool {
    match wanted {
        Some(hp) => stored matches Some(u) && (u.len() == 0 || has_infix(u, hp)),
        None => stored is None,
    }
}

/// The host and port of an optional form target.
pub open spec fn target_host_port(target: Option<Seq<char>>) -> Option<Seq<char>> {
    match target {
        Some(u) => host_port(u),
        None => None,
    }
}

/// Whether the stored login `row` stands for the same login as `l`, whatever their
/// identifiers, given the host and port `wanted` of the form target of `l`: the same hostname,
/// realm and username, and a form target that answers to `wanted`.
pub open spec fn is_same_login_by(l: LoginView, row: LoginView, wanted: Option<Seq<char>>) -> bool {
    &&& row.hostname == l.hostname
    &&& row.http_realm == l.http_realm
    &&& row.username == l.username
    &&& target_answers(row.form_submit_url, wanted)
}

/// Whether the stored login `row` stands for the same login as `l`, whatever their
/// identifiers.
pub open spec fn is_same_login(l: LoginView, row: LoginView) -> bool {
    is_same_login_by(l, row, target_host_port(l.form_submit_url))
}

/// Whether a login with the same hostname as `candidate` and the same form target or realm
/// is a possible duplicate of it, whatever the two usernames are.
pub open spec fn is_potential_dupe(candidate: LoginView, row: LoginView) -> bool {
    row.hostname == candidate.hostname && same_target(candidate, row)
}

impl StoreView {
    /// The store without any row or metadata.
    pub open spec fn empty() -> StoreView {
        StoreView { local: Seq::empty(), mirror: Seq::empty(), meta: Map::empty() }
    }

    /// Whether the local overlay has a row for `g`.
    pub open spec fn has_local(self, g: Seq<char>) -> bool {
        exists|i: int| 0 <= i < self.local.len() && (#[trigger] self.local[i]).login.guid == g
    }

    /// Whether the mirror has a row for `g`.
    pub open spec fn has_mirror(self, g: Seq<char>) -> bool {
        exists|i: int| 0 <= i < self.mirror.len() && (#[trigger] self.mirror[i]).login.guid == g
    }

    /// The place of the local row for `g`, where there is one.
    pub open spec fn local_index(self, g: Seq<char>) -> int {
        choose|i: int| 0 <= i < self.local.len() && (#[trigger] self.local[i]).login.guid == g
    }

    /// The place of the mirror row for `g`, where there is one.
    pub open spec fn mirror_index(self, g: Seq<char>) -> int {
        choose|i: int| 0 <= i < self.mirror.len() && (#[trigger] self.mirror[i]).login.guid == g
    }

    /// The local row for `g`, where there is one.
    pub open spec fn local_row(self, g: Seq<char>) -> LocalView {
        self.local[self.local_index(g)]
    }

    /// The mirror row for `g`, where there is one.
    pub open spec fn mirror_row(self, g: Seq<char>) -> MirrorView {
        self.mirror[self.mirror_index(g)]
    }

    /// The invariants between the two tables: every row has an identifier, which occurs at
    /// most once in each table; a mirror row is overridden exactly when a local row stands in
    /// front of it; a row that was created locally has no mirror row; and a tombstone holds no
    /// sensitive field.
    pub open spec fn wf(self) -> bool {
        &&& forall|i: int| 0 <= i < self.local.len() ==> (#[trigger] self.local[i]).login.guid.len() > 0
        &&& forall|i: int|
            0 <= i < self.mirror.len() ==> (#[trigger] self.mirror[i]).login.guid.len() > 0
        &&& forall|i: int, j: int|
            0 <= i < j < self.local.len() ==> (#[trigger] self.local[i]).login.guid != (
            #[trigger] self.local[j]).login.guid
        &&& forall|i: int, j: int|
            0 <= i < j < self.mirror.len() ==> (#[trigger] self.mirror[i]).login.guid != (
            #[trigger] self.mirror[j]).login.guid
        &&& forall|j: int|
            0 <= j < self.mirror.len() ==> ((#[trigger] self.mirror[j]).is_overridden
                <==> self.has_local(self.mirror[j].login.guid))
        &&& forall|i: int|
            0 <= i < self.local.len() && (#[trigger] self.local[i]).sync_status
                == SyncStatus::New ==> !self.has_mirror(self.local[i].login.guid)
        &&& forall|i: int|
            0 <= i < self.local.len() && (#[trigger] self.local[i]).is_deleted ==> is_scrubbed(
                self.local[i].login,
            )
    }

    /// Whether no identifier occurs twice in the local overlay.
    pub open spec fn distinct_local(self) -> bool {
        forall|i: int, j: int|
            0 <= i < j < self.local.len() ==> (#[trigger] self.local[i]).login.guid != (
            #[trigger] self.local[j]).login.guid
    }

    /// Whether no identifier occurs twice in the mirror.
    pub open spec fn distinct_mirror(self) -> bool {
        forall|i: int, j: int|
            0 <= i < j < self.mirror.len() ==> (#[trigger] self.mirror[i]).login.guid != (
            #[trigger] self.mirror[j]).login.guid
    }

    /// Whether the store is in order but for the mark of the mirror row of `g`: every
    /// invariant between the two tables holds, except that the mirror row of `g` may be
    /// overridden or not whether or not a local row stands in front of it. This is how the
    /// store stands between the two steps that give a record its local row and mark its mirror
    /// row; a store that is in order is so too.
    pub open spec fn wf_but_mark(self, g: Seq<char>) -> bool {
        &&& forall|i: int| 0 <= i < self.local.len() ==> (#[trigger] self.local[i]).login.guid.len() > 0
        &&& forall|i: int|
            0 <= i < self.mirror.len() ==> (#[trigger] self.mirror[i]).login.guid.len() > 0
        &&& self.distinct_local()
        &&& self.distinct_mirror()
        &&& forall|j: int|
            0 <= j < self.mirror.len() && (#[trigger] self.mirror[j]).login.guid != g ==> (
            self.mirror[j].is_overridden <==> self.has_local(self.mirror[j].login.guid))
        &&& forall|i: int|
            0 <= i < self.local.len() && (#[trigger] self.local[i]).sync_status
                == SyncStatus::New ==> !self.has_mirror(self.local[i].login.guid)
        &&& forall|i: int|
            0 <= i < self.local.len() && (#[trigger] self.local[i]).is_deleted ==> is_scrubbed(
                self.local[i].login,
            )
    }

    /// In a store that is in order, the row at place `i` is the local row of its identifier.
    pub proof fn lemma_local_index(self, i: int)
        requires
            self.distinct_local(),
            0 <= i < self.local.len(),
        ensures
            self.has_local(self.local[i].login.guid),
            self.local_index(self.local[i].login.guid) == i,
            self.local_row(self.local[i].login.guid) == self.local[i],
    {
        let g = self.local[i].login.guid;
        let c = self.local_index(g);
        assert(0 <= c < self.local.len() && self.local[c].login.guid == g);
        if c < i {
            assert(self.local[c].login.guid != self.local[i].login.guid);
        } else if i < c {
            assert(self.local[i].login.guid != self.local[c].login.guid);
        }
    }

    /// In a store that is in order, the row at place `i` is the mirror row of its identifier.
    pub proof fn lemma_mirror_index(self, i: int)
        requires
            self.distinct_mirror(),
            0 <= i < self.mirror.len(),
        ensures
            self.has_mirror(self.mirror[i].login.guid),
            self.mirror_index(self.mirror[i].login.guid) == i,
            self.mirror_row(self.mirror[i].login.guid) == self.mirror[i],
    {
        let g = self.mirror[i].login.guid;
        let c = self.mirror_index(g);
        assert(0 <= c < self.mirror.len() && self.mirror[c].login.guid == g);
        if c < i {
            assert(self.mirror[c].login.guid != self.mirror[i].login.guid);
        } else if i < c {
            assert(self.mirror[i].login.guid != self.mirror[c].login.guid);
        }
    }

    /// In a store that is in order, a record is visible exactly when it can be looked up.
    pub proof fn lemma_visible_lookup(self, g: Seq<char>)
        requires
            self.wf(),
        ensures
            self.is_visible(g) <==> self.lookup(g) is Some,
            self.lookup(g) matches Some(l) ==> l.guid == g,
    {
        if self.has_local(g) {
            let i = self.local_index(g);
            self.lemma_local_index(i);
            assert forall|k: int|
                0 <= k < self.local.len() && (#[trigger] self.local[k]).login.guid == g implies k
                == i by {
                self.lemma_local_index(k);
            }
        }
        if self.has_mirror(g) {
            let j = self.mirror_index(g);
            self.lemma_mirror_index(j);
            assert forall|k: int|
                0 <= k < self.mirror.len() && (#[trigger] self.mirror[k]).login.guid == g implies k
                == j by {
                self.lemma_mirror_index(k);
            }
        }
    }

    /// Whether `l` is the login of a visible record.
    pub open spec fn shows(self, l: LoginView) -> bool {
        ||| exists|i: int|
            0 <= i < self.local.len() && !(#[trigger] self.local[i]).is_deleted
                && self.local[i].login == l
        ||| exists|i: int|
            0 <= i < self.mirror.len() && !(#[trigger] self.mirror[i]).is_overridden
                && self.mirror[i].login == l
    }

    /// Whether the visible logins are canonical and none of them duplicates another. A store
    /// that was filled through `add`, `update` and `import_multiple` alone is tidy.
    pub open spec fn tidy(self) -> bool {
        &&& forall|a: LoginView| #[trigger] self.shows(a) ==> is_canonical(a)
        &&& forall|a: LoginView, b: LoginView|
            #[trigger] self.shows(a) && #[trigger] self.shows(b) ==> !is_dupe_of(a, b)
    }

    /// Whether both tables are empty.
    pub open spec fn has_no_rows(self) -> bool {
        self.local.len() == 0 && self.mirror.len() == 0
    }

    /// The visible logins: those of the local rows that are no tombstones, followed by those
    /// of the mirror rows that are not overridden.
    pub open spec fn visible(self) -> Seq<LoginView> {
        visible_local(self.local) + visible_mirror(self.mirror)
    }

    /// Whether a visible record has the identifier `g`.
    pub open spec fn is_visible(self, g: Seq<char>) -> bool {
        ||| exists|i: int|
            0 <= i < self.local.len() && (#[trigger] self.local[i]).login.guid == g
                && !self.local[i].is_deleted
        ||| exists|i: int|
            0 <= i < self.mirror.len() && (#[trigger] self.mirror[i]).login.guid == g
                && !self.mirror[i].is_overridden
    }

    /// The visible login with the identifier `g`: that of the local row where it is no
    /// tombstone, else that of the mirror row where it is not overridden.
    pub open spec fn lookup(self, g: Seq<char>) -> Option<LoginView> {
        if self.has_local(g) && !self.local_row(g).is_deleted {
            Some(self.local_row(g).login)
        } else if self.has_mirror(g) && !self.mirror_row(g).is_overridden {
            Some(self.mirror_row(g).login)
        } else {
            None
        }
    }

    /// Whether the local row at place `i` is the first that stands for the same login as `l`,
    /// given the host and port `wanted` of the form target of `l`.
    pub open spec fn is_first_same(self, l: LoginView, wanted: Option<Seq<char>>, i: int) -> bool {
        &&& 0 <= i < self.local.len()
        &&& is_same_login_by(l, self.local[i].login, wanted)
        &&& forall|k: int|
            0 <= k < i ==> !is_same_login_by(l, (#[trigger] self.local[k]).login, wanted)
    }

    /// Whether a visible login makes `candidate` a duplicate.
    pub open spec fn dupe_exists(self, candidate: LoginView) -> bool {
        ||| exists|i: int|
            0 <= i < self.local.len() && !(#[trigger] self.local[i]).is_deleted && is_dupe_of(
                candidate,
                self.local[i].login,
            )
        ||| exists|i: int|
            0 <= i < self.mirror.len() && !(#[trigger] self.mirror[i]).is_overridden
                && is_dupe_of(candidate, self.mirror[i].login)
    }

    /// The visible logins that are possible duplicates of `candidate`, in the order of
    /// [`Self::visible`].
    pub open spec fn potential_dupes(self, candidate: LoginView) -> Seq<LoginView> {
        self.visible().filter(|l: LoginView| is_potential_dupe(candidate, l))
    }

    /// The visible logins whose hostname has a host that belongs to `base`, in the order of
    /// [`Self::visible`].
    pub open spec fn by_host(self, base: HostView) -> Seq<LoginView> {
        self.visible().filter(|l: LoginView| host_within(base, url_host(l.hostname)))
    }

    /// The visible logins whose hostname has a host that belongs to the host that `domain`
    /// denotes; none where `domain` denotes no host.
    pub open spec fn by_base_domain(self, domain: Seq<char>) -> Seq<LoginView> {
        match parsed_host(domain) {
            Some(base) => self.by_host(base),
            None => Seq::empty(),
        }
    }

    /// The mirror after the row for `g`, if there is one, was marked as overridden.
    pub open spec fn marked(self, g: Seq<char>) -> Seq<MirrorView> {
        if self.has_mirror(g) {
            self.mirror.update(self.mirror_index(g), overridden(self.mirror_row(g)))
        } else {
            self.mirror
        }
    }

    /// The store after the record `g` was given a local row, if it had none; or the error for
    /// a record that is in neither table. The new local row is a copy of the mirror row, synced
    /// and not yet changed locally. The mirror stays as it is.
    pub open spec fn with_overlay(self, g: Seq<char>) -> Result<StoreView, ErrorView> {
        if self.has_local(g) {
            Ok(self)
        } else if self.has_mirror(g) {
            Ok(StoreView { local: self.local.push(overlay_of(self.mirror_row(g))), ..self })
        } else {
            Err(ErrorView::NoSuchRecord(g))
        }
    }

    /// The store after the mirror row of `g`, if there is one, was marked as overridden. The
    /// local overlay stays as it is.
    pub open spec fn with_mark(self, g: Seq<char>) -> StoreView {
        StoreView { mirror: self.marked(g), ..self }
    }

    /// The store after the record `g` was given a local row, if it had none, and its mirror
    /// row was marked as overridden; or the error for a record that is in neither table. The
    /// new local row is a copy of the mirror row.
    pub open spec fn materialized(self, g: Seq<char>) -> Result<StoreView, ErrorView> {
        if self.has_local(g) {
            Ok(StoreView { mirror: self.marked(g), ..self })
        } else if self.has_mirror(g) {
            Ok(
                StoreView {
                    local: self.local.push(overlay_of(self.mirror_row(g))),
                    mirror: self.marked(g),
                    ..self
                },
            )
        } else {
            Err(ErrorView::NoSuchRecord(g))
        }
    }

    /// The store after `touch` of `g` at `now`, or the error. A record that is in neither
    /// table is reported; a tombstone is left as it is.
    pub open spec fn touch(self, g: Seq<char>, now: i64) -> Result<StoreView, ErrorView> {
        if self.has_local(g) {
            let r = self.local_row(g);
            Ok(
                StoreView {
                    local: if r.is_deleted {
                        self.local
                    } else {
                        self.local.update(self.local_index(g), touched(r, now))
                    },
                    mirror: self.marked(g),
                    ..self
                },
            )
        } else if self.has_mirror(g) {
            Ok(
                StoreView {
                    local: self.local.push(touched(overlay_of(self.mirror_row(g)), now)),
                    mirror: self.marked(g),
                    ..self
                },
            )
        } else {
            Err(ErrorView::NoSuchRecord(g))
        }
    }

    /// The store after the canonical login `f` was added at `now`, with `fresh` at hand as a
    /// new identifier, and the login as it was stored; or the error. The login must duplicate
    /// no visible login, and its identifier must be in neither table.
    pub open spec fn add_fixed(self, f: LoginView, now: i64, fresh: Seq<char>) -> Result<
        (StoreView, LoginView),
        ErrorView,
    > {
        if self.dupe_exists(f) {
            Err(ErrorView::InvalidLogin(InvalidLogin::DuplicateLogin))
        } else {
            let stored = with_defaults(f, now, fresh);
            if self.has_local(stored.guid) || self.has_mirror(stored.guid) {
                Err(ErrorView::DuplicateGuid(stored.guid))
            } else {
                Ok((StoreView { local: self.local.push(new_row(stored, now)), ..self }, stored))
            }
        }
    }

    /// The store after `add` of `l` at `now`, with `fresh` at hand as a new identifier, and the
    /// login as it was stored; or the error. The login is made canonical first.
    pub open spec fn add(self, l: LoginView, now: i64, fresh: Seq<char>) -> Result<
        (StoreView, LoginView),
        ErrorView,
    > {
        match fixed(l) {
            Err(e) => Err(ErrorView::InvalidLogin(e)),
            Ok(f) => self.add_fixed(f, now, fresh),
        }
    }

    /// The store after the record that the canonical login `f` names was updated with `f` at
    /// `now`, or the error. The login must duplicate no other visible login, and the record
    /// must have a local row that is no tombstone, or a mirror row.
    pub open spec fn update_fixed(self, f: LoginView, now: i64) -> Result<StoreView, ErrorView> {
        if self.dupe_exists(f) {
            Err(ErrorView::InvalidLogin(InvalidLogin::DuplicateLogin))
        } else if self.has_local(f.guid) {
            let r = self.local_row(f.guid);
            if r.is_deleted {
                Err(ErrorView::NoSuchRecord(f.guid))
            } else {
                Ok(
                    StoreView {
                        local: self.local.update(self.local_index(f.guid), updated(r, f, now)),
                        mirror: self.marked(f.guid),
                        ..self
                    },
                )
            }
        } else if self.has_mirror(f.guid) {
            Ok(
                StoreView {
                    local: self.local.push(updated(overlay_of(self.mirror_row(f.guid)), f, now)),
                    mirror: self.marked(f.guid),
                    ..self
                },
            )
        } else {
            Err(ErrorView::NoSuchRecord(f.guid))
        }
    }

    /// The store after `update` with `l` at `now`, or the error. The login is made canonical
    /// first.
    pub open spec fn update(self, l: LoginView, now: i64) -> Result<StoreView, ErrorView> {
        match fixed(l) {
            Err(e) => Err(ErrorView::InvalidLogin(e)),
            Ok(f) => self.update_fixed(f, now),
        }
    }

    /// The store after `delete` of `g` at `now`: a local row becomes a tombstone, a mirror row
    /// is overridden and, where no local row was there, gets a tombstone in front of it.
    pub open spec fn delete(self, g: Seq<char>, now: i64) -> StoreView {
        StoreView {
            local: if self.has_local(g) {
                self.local.update(self.local_index(g), scrubbed(self.local_row(g), now))
            } else if self.has_mirror(g) {
                self.local.push(tombstone_of(self.mirror_row(g), now))
            } else {
                self.local
            },
            mirror: self.marked(g),
            ..self
        }
    }

    /// The store after `wipe` at `now`: every local row that is no tombstone becomes one, every
    /// mirror row is overridden, and each mirror row without a local row gets a tombstone.
    pub open spec fn wipe(self, now: i64) -> StoreView {
        StoreView {
            local: self.local.map_values(
                |r: LocalView|
                    if r.is_deleted {
                        r
                    } else {
                        scrubbed(r, now)
                    },
            ) + wipe_tombstones(self, self.mirror, now),
            mirror: self.mirror.map_values(|m: MirrorView| overridden(m)),
            ..self
        }
    }

    /// The local rows that the server has not confirmed as they are, in order: those that are
    /// new or changed.
    pub open spec fn pending(self) -> Seq<LocalView> {
        self.local.filter(|r: LocalView| r.sync_status != SyncStatus::Synced)
    }

    /// The store after the server has confirmed the local row of `g` at `server_modified`: the
    /// row leaves the local overlay; where it was a tombstone, the mirror row of `g` leaves
    /// too, else the mirror row takes the login of the local row and is no longer
    /// overridden. A record without a local row stays as it is.
    pub open spec fn uploaded(self, g: Seq<char>, server_modified: i64) -> StoreView {
        if !self.has_local(g) {
            self
        } else {
            let r = self.local_row(g);
            StoreView {
                local: self.local.remove(self.local_index(g)),
                mirror: if r.is_deleted {
                    if self.has_mirror(g) {
                        self.mirror.remove(self.mirror_index(g))
                    } else {
                        self.mirror
                    }
                } else if self.has_mirror(g) {
                    self.mirror.update(self.mirror_index(g), confirmed(r, server_modified))
                } else {
                    self.mirror.push(confirmed(r, server_modified))
                },
                ..self
            }
        }
    }

    /// The store after the login `l` came from the server with the time `server_modified`: the
    /// mirror row of the record takes the login, or a mirror row is added, which is
    /// overridden exactly if the record has a local row; and a local row that was new is
    /// changed from now on, since the server knows the record. A login without an identifier
    /// is passed over.
    pub open spec fn received(self, l: LoginView, server_modified: i64) -> StoreView {
        if l.guid.len() == 0 {
            self
        } else {
            StoreView {
                local: if self.has_local(l.guid) && self.local_row(l.guid).sync_status
                    == SyncStatus::New {
                    self.local.update(
                        self.local_index(l.guid),
                        LocalView { sync_status: SyncStatus::Changed, ..self.local_row(l.guid) },
                    )
                } else {
                    self.local
                },
                mirror: if self.has_mirror(l.guid) {
                    self.mirror.update(
                        self.mirror_index(l.guid),
                        MirrorView {
                            login: l,
                            server_modified,
                            is_overridden: self.mirror_row(l.guid).is_overridden,
                        },
                    )
                } else {
                    self.mirror.push(
                        MirrorView { login: l, server_modified, is_overridden: self.has_local(l.guid) },
                    )
                },
                ..self
            }
        }
    }

    /// The store and the outcome after the import of the canonical login `f` at `now`, with
    /// `fresh` at hand as a new identifier. A login that duplicates a visible login fails in
    /// the fix-up phase; one whose identifier is taken fails in the insert phase.
    pub open spec fn import_fixed(self, f: LoginView, now: i64, fresh: Seq<char>) -> (
        StoreView,
        ImportOutcomeView,
    ) {
        if self.dupe_exists(f) {
            (
                self,
                ImportOutcomeView::FailedFixup(ErrorView::InvalidLogin(InvalidLogin::DuplicateLogin)),
            )
        } else {
            let guid = import_guid(f, fresh);
            if self.has_local(guid) || self.has_mirror(guid) {
                (self, ImportOutcomeView::FailedInsert(ErrorView::DuplicateGuid(guid)))
            } else {
                (
                    StoreView {
                        local: self.local.push(new_row(LoginView { guid, ..f }, now)),
                        ..self
                    },
                    ImportOutcomeView::Imported,
                )
            }
        }
    }

    /// The store and the outcome after the import of `l` at `now`, with `fresh` at hand as a
    /// new identifier. The login is made canonical first; one that has no canonical form
    /// fails in the fix-up phase.
    pub open spec fn import_one(self, l: LoginView, now: i64, fresh: Seq<char>) -> (
        StoreView,
        ImportOutcomeView,
    ) {
        match fixed(l) {
            Err(e) => (self, ImportOutcomeView::FailedFixup(ErrorView::InvalidLogin(e))),
            Ok(f) => self.import_fixed(f, now, fresh),
        }
    }

    /// The store and the outcomes after the import of `logins` at `now`, one after the other,
    /// with `fresh[i]` at hand as a new identifier for `logins[i]`.
    pub open spec fn import_all(
        self,
        logins: Seq<LoginView>,
        now: i64,
        fresh: Seq<Seq<char>>,
    ) -> (StoreView, Seq<ImportOutcomeView>)
        decreases logins.len(),
    {
        if logins.len() == 0 {
            (self, Seq::empty())
        } else {
            let (before, outcomes) = self.import_all(logins.drop_last(), now, fresh);
            let (after, outcome) = before.import_one(
                logins.last(),
                now,
                fresh[logins.len() - 1],
            );
            (after, outcomes.push(outcome))
        }
    }
}

/// Whether an import of `logins` into the store `before`, at `now` and with `fresh[i]` at hand
/// as a new identifier for `logins[i]`, ends in the store `after` and reports `metrics`, where
/// the fix-up phase took `fixup_ms` of the `elapsed_ms` that passed.
pub open spec fn import_yields(
    before: StoreView,
    logins: Seq<LoginView>,
    now: i64,
    fresh: Seq<Seq<char>>,
    fixup_ms: u128,
    elapsed_ms: u128,
    after: StoreView,
    metrics: MetricsView,
) -> bool {
    let (end, outcomes) = before.import_all(logins, now, fresh);
    &&& fresh.len() == logins.len()
    &&& after == end
    &&& metrics == metrics_of(
        logins.len() as u64,
        fixup_labels(outcomes),
        insert_labels(outcomes),
        fixup_ms,
        elapsed_ms,
    )
}

/// What an import does with its first logins does not depend on the identifiers that are at
/// hand for the later ones.
pub proof fn lemma_import_all_agrees(
    s: StoreView,
    logins: Seq<LoginView>,
    now: i64,
    fresh: Seq<Seq<char>>,
    other: Seq<Seq<char>>,
)
    requires
        logins.len() <= fresh.len(),
        logins.len() <= other.len(),
        forall|k: int| 0 <= k < logins.len() ==> fresh[k] == other[k],
    ensures
        s.import_all(logins, now, fresh) == s.import_all(logins, now, other),
    decreases logins.len(),
{
    if logins.len() > 0 {
        lemma_import_all_agrees(s, logins.drop_last(), now, fresh, other);
    }
}

} // verus!
