//! The store: the two tables, the sync metadata and the operations on them.
//!
//! The store lives in memory. To keep it elsewhere, write what [`LoginDb::local_rows`],
//! [`LoginDb::mirror_rows`] and [`LoginDb::meta_entries`] give after a change, and hand it to
//! [`LoginDb::from_tables`] when the store is opened again. An operation that fails leaves the
//! store as it was, so there is nothing to undo.

use vstd::prelude::*;
use std::sync::Arc;
use std::sync::atomic::AtomicUsize;
use crate::clock::{elapsed_ms, stopwatch, system_time_ms};
use crate::error::{error_label, Error, ErrorView, InvalidLogin};
use crate::guid::{is_valid_for_sync_server, random_guid, valid_for_sync_server};
use crate::interrupt::{any_polled, poll, polled, SqlInterruptHandle, SqlInterruptScope};
use crate::invariants::{lemma_delete_wf, lemma_insert_wf, lemma_materialized_wf, lemma_with_mark, lemma_with_overlay, lemma_received_wf, lemma_uploaded_wf, lemma_touch_wf, lemma_update_fixed_wf, lemma_wipe_tombstones_push, lemma_wipe_wf};
use crate::login::{copy_opt, fixed, is_dupe_of, opt_login, same_opt, valid, Login, LoginView};
use crate::metrics::{add_up, MigrationMetrics};
use crate::model::{bumped, confirmed, fixup_labels, import_yields, lemma_import_all_agrees, touched, import_guid, insert_labels, is_potential_dupe, is_same_login, is_same_login_by, new_row, overlay_of, overridden, scrubbed, target_answers, target_host_port, tombstone_of, updated, visible_local, visible_mirror, wipe_tombstones, with_defaults, ImportOutcomeView, StoreView};
use crate::row::{local_views, login_views, mirror_views, LocalLogin, LocalView, MirrorLogin, MirrorView, SyncStatus};
use crate::seqs::{lemma_filter_empty, lemma_filter_map_push, lemma_filter_push, lemma_take_next};
use crate::tables::{distinct_keys, keys_distinct, lemma_meta_entry, meta_map, position_meta, tables_in_order, MetaEntry};
use crate::text::{contains_text, opt_text, texts};
use crate::tidy::{lemma_add_tidy, lemma_delete_tidy, lemma_with_mark_tidy, lemma_with_overlay_tidy, lemma_uploaded_tidy, lemma_import_one_tidy, lemma_touch_tidy, lemma_update_tidy, lemma_wipe_shows_nothing, shown_ids_valid};
use crate::urls::{host_within, is_within_base, parse_host, url_host, url_host_port, Host};

verus! {

/// The local store of logins.
pub struct LoginDb {
    local: Vec<LocalLogin>,
    mirror: Vec<MirrorLogin>,
    meta: Vec<MetaEntry>,
    interrupt_counter: Arc<AtomicUsize>,
}

/// How the import of one login ended.
#[derive(Debug)]
pub enum ImportOutcome {
    /// The login was stored.
    Imported,
    /// The login is not valid or duplicates a visible login; nothing was stored.
    FailedFixup(Error),
    /// The login could not be inserted; nothing was stored.
    FailedInsert(Error),
}

impl View for ImportOutcome {
    type V = ImportOutcomeView;

    open spec fn view(&self) -> ImportOutcomeView {
        match self {
            ImportOutcome::Imported => ImportOutcomeView::Imported,
            ImportOutcome::FailedFixup(e) => ImportOutcomeView::FailedFixup(e@),
            ImportOutcome::FailedInsert(e) => ImportOutcomeView::FailedInsert(e@),
        }
    }
}

/// One more use, unless the counter is at its largest value already.
fn bump(n: i64) -> (r: i64)
    ensures
        r == bumped(n),
{
    if n < i64::MAX {
        n + 1
    } else {
        n
    }
}

impl View for LoginDb {
    type V = StoreView;

    closed spec fn view(&self) -> StoreView {
        StoreView {
            local: local_views(self.local@),
            mirror: mirror_views(self.mirror@),
            meta: meta_map(self.meta@),
        }
    }
}

impl LoginDb {
    /// Whether no key occurs twice in the sync metadata as it is held.
    pub closed spec fn keys_in_order(&self) -> bool {
        distinct_keys(self.meta@)
    }

    /// Whether the store is in order: the invariants between the tables hold.
    pub open spec fn wf(&self) -> bool {
        self@.wf() && self.keys_in_order()
    }

    /// Whether the store is in order but for the mark of the mirror row of `guid`, as it is
    /// between the two steps that give a record its local row and mark its mirror row. A store
    /// that is in order is so too.
    pub open spec fn wf_but_mark(&self, guid: Seq<char>) -> bool {
        self@.wf_but_mark(guid) && self.keys_in_order()
    }

    /// Of a store that is in order, the invariants between the two tables hold.
    pub proof fn law_invariants_hold(&self)
        requires
            self.wf(),
        ensures
            self@.wf(),
    {
    }

    /// A store without any record, kept in memory.
    pub fn open_in_memory() -> (r: Result<LoginDb, Error>)
        ensures
            r matches Ok(db) && db.wf() && db@ == StoreView::empty() && db@.tidy(),
    {
        let db = LoginDb {
            local: Vec::new(),
            mirror: Vec::new(),
            meta: Vec::new(),
            interrupt_counter: Arc::new(AtomicUsize::new(0)),
        };
        assert(db@.local =~= Seq::empty());
        assert(db@.mirror =~= Seq::empty());
        assert(db@.meta =~= Map::empty());
        Ok(db)
    }

    /// The place of the local row of the record `g`, if it has one.
    fn find_local(&self, g: &String) -> (r: Option<usize>)
        requires
            self@.distinct_local(),
        ensures
            match r {
                Some(i) => i < self.local.len() && self@.has_local(g@) && self@.local_index(g@)
                    == i && self.local[i as int]@.login.guid == g@,
                None => !self@.has_local(g@),
            },
    {
        let mut i: usize = 0;
        while i < self.local.len()
            invariant
                self@.distinct_local(),
                i <= self.local.len(),
                forall|k: int| 0 <= k < i ==> (#[trigger] self@.local[k]).login.guid != g@,
            decreases self.local.len() - i,
        {
            if self.local[i].login.guid == *g {
                proof {
                    self@.lemma_local_index(i as int);
                }
                return Some(i);
            }
            i += 1;
        }
        None
    }

    /// The place of the mirror row of the record `g`, if it has one.
    fn find_mirror(&self, g: &String) -> (r: Option<usize>)
        requires
            self@.distinct_mirror(),
        ensures
            match r {
                Some(i) => i < self.mirror.len() && self@.has_mirror(g@) && self@.mirror_index(g@)
                    == i && self.mirror[i as int]@.login.guid == g@,
                None => !self@.has_mirror(g@),
            },
    {
        let mut i: usize = 0;
        while i < self.mirror.len()
            invariant
                self@.distinct_mirror(),
                i <= self.mirror.len(),
                forall|k: int| 0 <= k < i ==> (#[trigger] self@.mirror[k]).login.guid != g@,
            decreases self.mirror.len() - i,
        {
            if self.mirror[i].login.guid == *g {
                proof {
                    self@.lemma_mirror_index(i as int);
                }
                return Some(i);
            }
            i += 1;
        }
        None
    }

    /// The visible logins: those of the local rows that are no tombstones, then those of the
    /// mirror rows that are not overridden.
    pub fn get_all(&self) -> (r: Result<Vec<Login>, Error>)
        requires
            self.wf(),
        ensures
            r matches Ok(v) && login_views(v@) == self@.visible(),
    {
        let mut out: Vec<Login> = Vec::new();
        let ghost keep_local = |r: LocalView|
            if r.is_deleted {
                None
            } else {
                Some(r.login)
            };
        let ghost keep_mirror = |r: MirrorView|
            if r.is_overridden {
                None
            } else {
                Some(r.login)
            };
        let mut i: usize = 0;
        assert(self@.local.take(0) =~= Seq::empty());
        assert(login_views(out@) =~= Seq::empty());
        while i < self.local.len()
            invariant
                i <= self.local.len(),
                login_views(out@) == visible_local(self@.local.take(i as int)),
            decreases self.local.len() - i,
        {
            proof {
                lemma_take_next(self@.local, i as int);
                lemma_filter_map_push(self@.local.take(i as int), self@.local[i as int], keep_local);
            }
            if !self.local[i].is_deleted {
                let copy = self.local[i].login.clone();
                assert(login_views(out@.push(copy)) =~= login_views(out@).push(copy@));
                out.push(copy);
            }
            i += 1;
        }
        assert(self@.local.take(i as int) =~= self@.local);
        let mut j: usize = 0;
        assert(self@.mirror.take(0) =~= Seq::empty());
        assert(visible_local(self@.local) + Seq::<LoginView>::empty() =~= visible_local(
            self@.local,
        ));
        while j < self.mirror.len()
            invariant
                j <= self.mirror.len(),
                login_views(out@) == visible_local(self@.local) + visible_mirror(
                    self@.mirror.take(j as int),
                ),
            decreases self.mirror.len() - j,
        {
            proof {
                lemma_take_next(self@.mirror, j as int);
                lemma_filter_map_push(
                    self@.mirror.take(j as int),
                    self@.mirror[j as int],
                    keep_mirror,
                );
            }
            if !self.mirror[j].is_overridden {
                let copy = self.mirror[j].login.clone();
                assert(login_views(out@.push(copy)) =~= login_views(out@).push(copy@));
                assert((visible_local(self@.local) + visible_mirror(
                    self@.mirror.take(j as int),
                )).push(copy@) =~= visible_local(self@.local) + visible_mirror(
                    self@.mirror.take(j as int),
                ).push(copy@));
                out.push(copy);
            }
            j += 1;
        }
        assert(self@.mirror.take(j as int) =~= self@.mirror);
        Ok(out)
    }

    /// The visible login with the identifier `id`, if there is one. A local row stands in
    /// front of the mirror row of the same record.
    pub fn get_by_id(&self, id: &str) -> (r: Result<Option<Login>, Error>)
        requires
            self.wf(),
        ensures
            r matches Ok(o) && opt_login(o) == self@.lookup(id@),
    {
        let key: String = id.to_owned();
        if let Some(i) = self.find_local(&key) {
            if !self.local[i].is_deleted {
                return Ok(Some(self.local[i].login.clone()));
            }
        }
        if let Some(j) = self.find_mirror(&key) {
            if !self.mirror[j].is_overridden {
                return Ok(Some(self.mirror[j].login.clone()));
            }
        }
        Ok(None)
    }

    /// Whether a visible record has the identifier `id`.
    pub fn record_exists(&self, id: &str) -> (r: Result<bool, Error>)
        requires
            self.wf(),
        ensures
            r matches Ok(b) && b == self@.is_visible(id@),
    {
        proof {
            self@.lemma_visible_lookup(id@);
        }
        match self.get_by_id(id) {
            Ok(found) => Ok(found.is_some()),
            Err(e) => Err(e),
        }
    }

    /// Whether a visible login other than `login` itself has the hostname of `login`, its
    /// username, which is not empty, and its form target or its realm.
    pub fn dupe_exists(&self, login: &Login) -> (r: Result<bool, Error>)
        requires
            self.wf(),
        ensures
            r matches Ok(b) && b == self@.dupe_exists(login@),
    {
        let mut i: usize = 0;
        while i < self.local.len()
            invariant
                i <= self.local.len(),
                forall|k: int|
                    0 <= k < i ==> !(!(#[trigger] self@.local[k]).is_deleted && is_dupe_of(
                        login@,
                        self@.local[k].login,
                    )),
            decreases self.local.len() - i,
        {
            if !self.local[i].is_deleted && login.is_duplicated_by(&self.local[i].login) {
                assert(!self@.local[i as int].is_deleted);
                return Ok(true);
            }
            i += 1;
        }
        let mut j: usize = 0;
        while j < self.mirror.len()
            invariant
                j <= self.mirror.len(),
                forall|k: int|
                    0 <= k < self.local.len() ==> !(!(#[trigger] self@.local[k]).is_deleted
                        && is_dupe_of(login@, self@.local[k].login)),
                forall|k: int|
                    0 <= k < j ==> !(!(#[trigger] self@.mirror[k]).is_overridden && is_dupe_of(
                        login@,
                        self@.mirror[k].login,
                    )),
            decreases self.mirror.len() - j,
        {
            if !self.mirror[j].is_overridden && login.is_duplicated_by(&self.mirror[j].login) {
                assert(!self@.mirror[j as int].is_overridden);
                return Ok(true);
            }
            j += 1;
        }
        Ok(false)
    }

    /// Fails where a visible login makes `login` a duplicate.
    pub fn check_for_dupes(&self, login: &Login) -> (r: Result<(), Error>)
        requires
            self.wf(),
        ensures
            r is Ok <==> !self@.dupe_exists(login@),
            r matches Err(e) ==> e@ == ErrorView::InvalidLogin(InvalidLogin::DuplicateLogin),
    {
        match self.dupe_exists(login) {
            Ok(true) => Err(Error::InvalidLogin(InvalidLogin::DuplicateLogin)),
            Ok(false) => Ok(()),
            Err(e) => Err(e),
        }
    }

    /// Checks that `login` can be stored as it is and duplicates no visible login.
    pub fn check_valid_with_no_dupes(&self, login: &Login) -> (r: Result<(), Error>)
        requires
            self.wf(),
        ensures
            r is Ok <==> valid(login@) is Ok && !self@.dupe_exists(login@),
            r matches Err(e) ==> e@ == (match valid(login@) {
                Err(fault) => ErrorView::InvalidLogin(fault),
                Ok(_) => ErrorView::InvalidLogin(InvalidLogin::DuplicateLogin),
            }),
    {
        match login.check_valid() {
            Ok(_) => self.check_for_dupes(login),
            Err(e) => Err(e),
        }
    }

    /// The canonical form of `login`, provided that it duplicates no visible login.
    pub fn fixup_and_check_for_dupes(&self, login: Login) -> (r: Result<Login, Error>)
        requires
            self.wf(),
        ensures
            match r {
                Ok(f) => fixed(login@) == Ok::<LoginView, InvalidLogin>(f@) && !self@.dupe_exists(
                    f@,
                ),
                Err(e) => match fixed(login@) {
                    Err(fault) => e@ == ErrorView::InvalidLogin(fault),
                    Ok(f) => self@.dupe_exists(f) && e@ == ErrorView::InvalidLogin(
                        InvalidLogin::DuplicateLogin,
                    ),
                },
            },
    {
        match login.fixup() {
            Ok(f) => match self.check_for_dupes(&f) {
                Ok(_) => Ok(f),
                Err(e) => Err(e),
            },
            Err(e) => Err(e),
        }
    }

    /// The visible logins that have the hostname of `login` and its form target or its realm,
    /// whatever their username.
    pub fn potential_dupes_ignoring_username(&self, login: &Login) -> (r: Result<
        Vec<Login>,
        Error,
    >)
        requires
            self.wf(),
        ensures
            r matches Ok(v) && login_views(v@) == self@.potential_dupes(login@),
    {
        let all = match self.get_all() {
            Ok(v) => v,
            Err(e) => {
                return Err(e);
            },
        };
        let ghost keep = |l: LoginView| is_potential_dupe(login@, l);
        let mut out: Vec<Login> = Vec::new();
        let mut i: usize = 0;
        proof {
            lemma_filter_empty(keep);
            assert(login_views(all@).take(0) =~= Seq::empty());
            assert(login_views(out@) =~= Seq::empty());
        }
        while i < all.len()
            invariant
                i <= all.len(),
                keep == |l: LoginView| is_potential_dupe(login@, l),
                login_views(out@) == login_views(all@).take(i as int).filter(keep),
            decreases all.len() - i,
        {
            proof {
                lemma_take_next(login_views(all@), i as int);
                lemma_filter_push(login_views(all@).take(i as int), all@[i as int]@, keep);
            }
            if login.shares_target_with(&all[i]) {
                let copy = all[i].clone();
                assert(login_views(out@.push(copy)) =~= login_views(out@).push(copy@));
                out.push(copy);
            }
            i += 1;
        }
        assert(login_views(all@).take(i as int) =~= login_views(all@));
        Ok(out)
    }

    /// The visible logins whose hostname has a host that belongs to `base`: the same domain or
    /// a subdomain of it, or the same address.
    pub fn get_by_host(&self, base: &Host) -> (r: Result<Vec<Login>, Error>)
        requires
            self.wf(),
        ensures
            r matches Ok(v) && login_views(v@) == self@.by_host(base@),
    {
        let all = match self.get_all() {
            Ok(v) => v,
            Err(e) => {
                return Err(e);
            },
        };
        let ghost keep = |l: LoginView| host_within(base@, url_host(l.hostname));
        let mut out: Vec<Login> = Vec::new();
        let mut i: usize = 0;
        proof {
            lemma_filter_empty(keep);
            assert(login_views(all@).take(0) =~= Seq::empty());
            assert(login_views(out@) =~= Seq::empty());
        }
        while i < all.len()
            invariant
                i <= all.len(),
                keep == |l: LoginView| host_within(base@, url_host(l.hostname)),
                login_views(out@) == login_views(all@).take(i as int).filter(keep),
            decreases all.len() - i,
        {
            proof {
                lemma_take_next(login_views(all@), i as int);
                lemma_filter_push(login_views(all@).take(i as int), all@[i as int]@, keep);
            }
            if is_within_base(base, all[i].hostname.as_str()) {
                let copy = all[i].clone();
                assert(login_views(out@.push(copy)) =~= login_views(out@).push(copy@));
                out.push(copy);
            }
            i += 1;
        }
        assert(login_views(all@).take(i as int) =~= login_views(all@));
        Ok(out)
    }

    /// The visible logins whose hostname has a host that belongs to `base_domain`: the same
    /// domain or a subdomain of it, or the same address. Nothing is found where `base_domain`
    /// is no host.
    pub fn get_by_base_domain(&self, base_domain: &str) -> (r: Result<Vec<Login>, Error>)
        requires
            self.wf(),
        ensures
            r matches Ok(v) && login_views(v@) == self@.by_base_domain(base_domain@),
    {
        match parse_host(base_domain) {
            Some(base) => self.get_by_host(&base),
            None => {
                let none: Vec<Login> = Vec::new();
                assert(login_views(none@) =~= Seq::empty());
                Ok(none)
            },
        }
    }

    /// The counter through which the operations of this store are interrupted.
    pub closed spec fn interrupt_counter(&self) -> Arc<AtomicUsize> {
        self.interrupt_counter
    }

    /// A handle that cancels the operations of this store that watch for it: a handle on the
    /// counter of this store.
    pub fn new_interrupt_handle(&self) -> (r: SqlInterruptHandle)
        ensures
            r.counter() == self.interrupt_counter(),
    {
        SqlInterruptHandle::new(self.interrupt_counter.clone())
    }

    /// A scope that notices every interrupt that is asked of this store from now on: a scope
    /// on the counter of this store.
    pub fn begin_interrupt_scope(&self) -> (r: SqlInterruptScope)
        ensures
            r.counter() == self.interrupt_counter(),
    {
        SqlInterruptScope::new(self.interrupt_counter.clone())
    }

    /// Gives the record `key` a local row, if it has none, and marks its mirror row as
    /// overridden: the two steps, one after the other. Hands back the place of the local row.
    fn materialize(&mut self, key: String) -> (r: Result<usize, Error>)
        requires
            old(self).wf(),
        ensures
            final(self).wf(),
            final(self).interrupt_counter() == old(self).interrupt_counter(),
            match r {
                Ok(at) => {
                    &&& old(self)@.materialized(key@) == Ok::<StoreView, ErrorView>(final(self)@)
                    &&& at < final(self).local.len()
                    &&& at == final(self)@.local_index(key@)
                    &&& final(self)@.local[at as int] == final(self)@.local_row(key@)
                },
                Err(e) => old(self)@.materialized(key@) == Err::<StoreView, ErrorView>(e@)
                    && final(self)@ == old(self)@,
            },
            old(self)@.tidy() ==> final(self)@.tidy(),
    {
        proof {
            crate::laws::law_local_row_in_two_steps(old(self)@, key@);
            if old(self)@.with_overlay(key@) is Ok {
                lemma_with_overlay(old(self)@, key@);
            }
        }
        match self.ensure_local_overlay_exists(key.as_str()) {
            Ok(_) => {},
            Err(e) => {
                return Err(e);
            },
        }
        let _ = self.mark_mirror_overridden(key.as_str());
        match self.find_local(&key) {
            Some(at) => Ok(at),
            None => {
                assert(false);
                Err(Error::NoSuchRecord(key))
            },
        }
    }

    /// Gives the record `guid` a local row, if it has none: a copy of its mirror row, synced
    /// and not yet changed locally. A local row that is there stays as it is, a tombstone too,
    /// and so does the mirror; to mark the mirror row is the business of
    /// [`Self::mark_mirror_overridden`], which puts the store in order again. A record that is
    /// in neither table is reported.
    pub fn ensure_local_overlay_exists(&mut self, guid: &str) -> (r: Result<(), Error>)
        requires
            old(self).wf_but_mark(guid@),
        ensures
            final(self).wf_but_mark(guid@),
            final(self).interrupt_counter() == old(self).interrupt_counter(),
            match r {
                Ok(_) => old(self)@.with_overlay(guid@) == Ok::<StoreView, ErrorView>(final(self)@),
                Err(e) => old(self)@.with_overlay(guid@) == Err::<StoreView, ErrorView>(e@)
                    && final(self)@ == old(self)@,
            },
            final(self)@.mirror == old(self)@.mirror,
            old(self)@.has_local(guid@) ==> final(self)@ == old(self)@,
            r is Ok ==> final(self)@.has_local(guid@),
            old(self).wf() && old(self)@.tidy() ==> final(self)@.tidy(),
    {
        let key: String = guid.to_owned();
        proof {
            if old(self)@.with_overlay(guid@) is Ok {
                lemma_with_overlay(old(self)@, guid@);
                if old(self).wf() && old(self)@.tidy() {
                    lemma_with_overlay_tidy(old(self)@, guid@);
                }
            }
        }
        if self.find_local(&key).is_some() {
            return Ok(());
        }
        match self.find_mirror(&key) {
            Some(j) => {
                let row = LocalLogin {
                    login: self.mirror[j].login.clone(),
                    local_modified: None,
                    is_deleted: false,
                    sync_status: SyncStatus::Synced,
                };
                assert(row@ == overlay_of(old(self)@.mirror_row(guid@)));
                self.local.push(row);
                assert(self@.local =~= old(self)@.with_overlay(guid@)->Ok_0.local);
                Ok(())
            },
            None => Err(Error::NoSuchRecord(key)),
        }
    }

    /// Marks the mirror row of the record `guid`, if it has one, as overridden, whatever it was
    /// before. The local overlay stays as it is. Where the record has a local row, or no
    /// mirror row, the store is in order afterwards.
    pub fn mark_mirror_overridden(&mut self, guid: &str) -> (r: Result<(), Error>)
        requires
            old(self).wf_but_mark(guid@),
        ensures
            r is Ok,
            final(self).wf_but_mark(guid@),
            final(self).interrupt_counter() == old(self).interrupt_counter(),
            final(self)@ == old(self)@.with_mark(guid@),
            old(self)@.has_local(guid@) || !old(self)@.has_mirror(guid@) ==> final(self).wf(),
            old(self)@.tidy() ==> final(self)@.tidy(),
    {
        let key: String = guid.to_owned();
        proof {
            lemma_with_mark(old(self)@, guid@);
            if old(self)@.tidy() {
                lemma_with_mark_tidy(old(self)@, guid@);
            }
        }
        if let Some(j) = self.find_mirror(&key) {
            self.mirror[j].is_overridden = true;
        }
        assert(self@.mirror =~= old(self)@.marked(guid@));
        Ok(())
    }

    /// Records at `now_ms` that the record `id` was used once more. A record without a local
    /// row gets one, copied from the mirror, and its mirror row is overridden. The sync status
    /// stays as it is, and so does a tombstone.
    pub fn touch_at(&mut self, id: &str, now_ms: i64) -> (r: Result<(), Error>)
        requires
            old(self).wf(),
        ensures
            final(self).wf(),
            final(self).interrupt_counter() == old(self).interrupt_counter(),
            match r {
                Ok(_) => old(self)@.touch(id@, now_ms) == Ok::<StoreView, ErrorView>(final(self)@),
                Err(e) => old(self)@.touch(id@, now_ms) == Err::<StoreView, ErrorView>(e@)
                    && final(self)@ == old(self)@,
            },
            old(self)@.tidy() ==> final(self)@.tidy(),
    {
        proof {
            if old(self)@.touch(id@, now_ms) is Ok {
                lemma_touch_wf(old(self)@, id@, now_ms);
                lemma_materialized_wf(old(self)@, id@);
                if old(self)@.tidy() {
                    lemma_touch_tidy(old(self)@, id@, now_ms);
                }
            }
        }
        let at = match self.materialize(id.to_owned()) {
            Ok(at) => at,
            Err(e) => {
                return Err(e);
            },
        };
        let ghost given = self@;
        if !self.local[at].is_deleted {
            self.local[at].login.time_last_used = now_ms;
            self.local[at].login.times_used = bump(self.local[at].login.times_used);
            self.local[at].local_modified = Some(now_ms);
        }
        proof {
            let row = given.local[at as int];
            assert(self@.local =~= if row.is_deleted {
                given.local
            } else {
                given.local.update(at as int, touched(row, now_ms))
            });
            if !old(self)@.has_local(id@) {
                assert(old(self)@.local.push(row).update(at as int, touched(row, now_ms))
                    =~= old(self)@.local.push(touched(row, now_ms)));
            }
            assert(self@.local =~= old(self)@.touch(id@, now_ms)->Ok_0.local);
        }
        Ok(())
    }

    /// Records that the record `id` was used once more, at the time that the clock gives.
    pub fn touch(&mut self, id: &str) -> (r: Result<(), Error>)
        requires
            old(self).wf(),
        ensures
            final(self).wf(),
            final(self).interrupt_counter() == old(self).interrupt_counter(),
            exists|now: i64|
                match r {
                    Ok(_) => (#[trigger] old(self)@.touch(id@, now)) == Ok::<StoreView, ErrorView>(
                        final(self)@,
                    ),
                    Err(e) => old(self)@.touch(id@, now) == Err::<StoreView, ErrorView>(e@)
                        && final(self)@ == old(self)@,
                },
            old(self)@.tidy() ==> final(self)@.tidy(),
    {
        let now_ms = system_time_ms();
        self.touch_at(id, now_ms)
    }

    /// Stores the canonical login `f` as a new record at `now_ms`, with `fresh` at hand as its
    /// identifier if it brings none. The login must duplicate no visible login; times and use
    /// count that are zero are filled in. Hands back the login as it was stored.
    pub fn add_fixed_at(&mut self, f: Login, now_ms: i64, fresh: String) -> (r: Result<Login, Error>)
        requires
            old(self).wf(),
            f@.guid.len() > 0 || fresh@.len() > 0,
        ensures
            final(self).wf(),
            final(self).interrupt_counter() == old(self).interrupt_counter(),
            match r {
                Ok(stored) => old(self)@.add_fixed(f@, now_ms, fresh@) == Ok::<
                    (StoreView, LoginView),
                    ErrorView,
                >((final(self)@, stored@)),
                Err(e) => old(self)@.add_fixed(f@, now_ms, fresh@) == Err::<
                    (StoreView, LoginView),
                    ErrorView,
                >(e@) && final(self)@ == old(self)@,
            },
    {
        match self.check_for_dupes(&f) {
            Ok(_) => {},
            Err(e) => {
                return Err(e);
            },
        }
        let stored = Login {
            guid: if f.guid.as_str().is_empty() {
                fresh
            } else {
                f.guid
            },
            hostname: f.hostname,
            form_submit_url: f.form_submit_url,
            http_realm: f.http_realm,
            username: f.username,
            password: f.password,
            username_field: f.username_field,
            password_field: f.password_field,
            time_created: if f.time_created == 0 {
                now_ms
            } else {
                f.time_created
            },
            time_password_changed: if f.time_password_changed == 0 {
                now_ms
            } else {
                f.time_password_changed
            },
            time_last_used: if f.time_last_used == 0 {
                now_ms
            } else {
                f.time_last_used
            },
            times_used: if f.times_used == 0 {
                1
            } else {
                f.times_used
            },
        };
        assert(stored@ == with_defaults(f@, now_ms, fresh@));
        if self.find_local(&stored.guid).is_some() || self.find_mirror(&stored.guid).is_some() {
            return Err(Error::DuplicateGuid(stored.guid));
        }
        let row = LocalLogin {
            login: stored.clone(),
            local_modified: Some(now_ms),
            is_deleted: false,
            sync_status: SyncStatus::New,
        };
        proof {
            lemma_insert_wf(old(self)@, row@);
        }
        self.local.push(row);
        assert(self@.local =~= old(self)@.local.push(new_row(stored@, now_ms)));
        Ok(stored)
    }

    /// Stores `login` as a new record at `now_ms`, with `fresh` at hand as its identifier if
    /// it brings none. The login is made canonical first and must duplicate no visible login;
    /// times and use count that are zero are filled in. Hands back the login as it was stored.
    pub fn add_at(&mut self, login: Login, now_ms: i64, fresh: String) -> (r: Result<Login, Error>)
        requires
            old(self).wf(),
            login@.guid.len() > 0 || fresh@.len() > 0,
        ensures
            final(self).wf(),
            final(self).interrupt_counter() == old(self).interrupt_counter(),
            match r {
                Ok(stored) => old(self)@.add(login@, now_ms, fresh@) == Ok::<
                    (StoreView, LoginView),
                    ErrorView,
                >((final(self)@, stored@)),
                Err(e) => old(self)@.add(login@, now_ms, fresh@) == Err::<
                    (StoreView, LoginView),
                    ErrorView,
                >(e@) && final(self)@ == old(self)@,
            },
            old(self)@.tidy() ==> final(self)@.tidy(),
    {
        proof {
            if old(self)@.tidy() && old(self)@.add(login@, now_ms, fresh@) is Ok {
                lemma_add_tidy(old(self)@, login@, now_ms, fresh@);
            }
        }
        match login.fixup() {
            Ok(f) => self.add_fixed_at(f, now_ms, fresh),
            Err(e) => Err(e),
        }
    }

    /// Stores `login` as a new record, at the time that the clock gives and, if it brings no
    /// identifier, under one that is drawn at random.
    pub fn add(&mut self, login: Login) -> (r: Result<Login, Error>)
        requires
            old(self).wf(),
        ensures
            final(self).wf(),
            final(self).interrupt_counter() == old(self).interrupt_counter(),
            exists|now: i64, fresh: Seq<char>|
                valid_for_sync_server(fresh) && match r {
                    Ok(stored) => (#[trigger] old(self)@.add(login@, now, fresh)) == Ok::<
                        (StoreView, LoginView),
                        ErrorView,
                    >((final(self)@, stored@)),
                    Err(e) => old(self)@.add(login@, now, fresh) == Err::<
                        (StoreView, LoginView),
                        ErrorView,
                    >(e@) && final(self)@ == old(self)@,
                },
            old(self)@.tidy() ==> final(self)@.tidy(),
    {
        let now_ms = system_time_ms();
        let fresh = random_guid();
        self.add_at(login, now_ms, fresh)
    }

    /// Replaces at `now_ms` the login of the record that the canonical login `f` names by `f`,
    /// which must duplicate no other visible login. The use count goes up by one, the time of
    /// the last password change moves only if the password differs, and a synced row becomes
    /// changed. A record without a local row gets one and its mirror row is overridden. A
    /// record that is in neither table, or deleted, is reported.
    pub fn update_fixed_at(&mut self, f: Login, now_ms: i64) -> (r: Result<(), Error>)
        requires
            old(self).wf(),
        ensures
            final(self).wf(),
            final(self).interrupt_counter() == old(self).interrupt_counter(),
            match r {
                Ok(_) => old(self)@.update_fixed(f@, now_ms) == Ok::<StoreView, ErrorView>(
                    final(self)@,
                ),
                Err(e) => old(self)@.update_fixed(f@, now_ms) == Err::<StoreView, ErrorView>(e@)
                    && final(self)@ == old(self)@,
            },
    {
        match self.check_for_dupes(&f) {
            Ok(_) => {},
            Err(e) => {
                return Err(e);
            },
        }
        if let Some(i) = self.find_local(&f.guid) {
            if self.local[i].is_deleted {
                return Err(Error::NoSuchRecord(f.guid));
            }
        }
        proof {
            if old(self)@.update_fixed(f@, now_ms) is Ok {
                lemma_update_fixed_wf(old(self)@, f@, now_ms);
                lemma_materialized_wf(old(self)@, f@.guid);
            }
        }
        let at = match self.materialize(f.guid.clone()) {
            Ok(at) => at,
            Err(e) => {
                return Err(e);
            },
        };
        let ghost given = self@;
        let row = LocalLogin {
            login: Login {
                guid: f.guid,
                hostname: f.hostname,
                form_submit_url: f.form_submit_url,
                http_realm: f.http_realm,
                username: f.username,
                time_password_changed: if self.local[at].login.password == f.password {
                    self.local[at].login.time_password_changed
                } else {
                    now_ms
                },
                password: f.password,
                username_field: f.username_field,
                password_field: f.password_field,
                time_created: self.local[at].login.time_created,
                time_last_used: now_ms,
                times_used: bump(self.local[at].login.times_used),
            },
            local_modified: Some(now_ms),
            is_deleted: self.local[at].is_deleted,
            sync_status: match self.local[at].sync_status {
                SyncStatus::Synced => SyncStatus::Changed,
                SyncStatus::Changed => SyncStatus::Changed,
                SyncStatus::New => SyncStatus::New,
            },
        };
        assert(row@ == updated(given.local[at as int], f@, now_ms));
        self.local[at] = row;
        proof {
            let base = given.local[at as int];
            assert(self@.local =~= given.local.update(at as int, updated(base, f@, now_ms)));
            if !old(self)@.has_local(f@.guid) {
                assert(old(self)@.local.push(base).update(at as int, updated(base, f@, now_ms))
                    =~= old(self)@.local.push(updated(base, f@, now_ms)));
            }
            assert(self@.local =~= old(self)@.update_fixed(f@, now_ms)->Ok_0.local);
        }
        Ok(())
    }

    /// Replaces at `now_ms` the login of the record that `login` names by the canonical form
    /// of `login`, which must duplicate no other visible login.
    pub fn update_at(&mut self, login: Login, now_ms: i64) -> (r: Result<(), Error>)
        requires
            old(self).wf(),
        ensures
            final(self).wf(),
            final(self).interrupt_counter() == old(self).interrupt_counter(),
            match r {
                Ok(_) => old(self)@.update(login@, now_ms) == Ok::<StoreView, ErrorView>(
                    final(self)@,
                ),
                Err(e) => old(self)@.update(login@, now_ms) == Err::<StoreView, ErrorView>(e@)
                    && final(self)@ == old(self)@,
            },
            old(self)@.tidy() ==> final(self)@.tidy(),
    {
        proof {
            if old(self)@.tidy() && old(self)@.update(login@, now_ms) is Ok {
                lemma_update_tidy(old(self)@, login@, now_ms);
            }
        }
        match login.fixup() {
            Ok(f) => self.update_fixed_at(f, now_ms),
            Err(e) => Err(e),
        }
    }

    /// Replaces the login of the record that `login` names, at the time that the clock gives.
    pub fn update(&mut self, login: Login) -> (r: Result<(), Error>)
        requires
            old(self).wf(),
        ensures
            final(self).wf(),
            final(self).interrupt_counter() == old(self).interrupt_counter(),
            exists|now: i64|
                match r {
                    Ok(_) => (#[trigger] old(self)@.update(login@, now)) == Ok::<
                        StoreView,
                        ErrorView,
                    >(final(self)@),
                    Err(e) => old(self)@.update(login@, now) == Err::<StoreView, ErrorView>(e@)
                        && final(self)@ == old(self)@,
                },
            old(self)@.tidy() ==> final(self)@.tidy(),
    {
        let now_ms = system_time_ms();
        self.update_at(login, now_ms)
    }

    /// Deletes the record `id` at `now_ms` and says whether it was visible before. Its local
    /// row becomes a tombstone without the sensitive fields; its mirror row is overridden and,
    /// where no local row was there, gets a tombstone in front of it.
    pub fn delete_at(&mut self, id: &str, now_ms: i64) -> (r: Result<bool, Error>)
        requires
            old(self).wf(),
        ensures
            final(self).wf(),
            final(self).interrupt_counter() == old(self).interrupt_counter(),
            r matches Ok(existed) && existed == old(self)@.is_visible(id@),
            final(self)@ == old(self)@.delete(id@, now_ms),
            old(self)@.tidy() ==> final(self)@.tidy(),
    {
        let key: String = id.to_owned();
        let existed = match self.record_exists(id) {
            Ok(b) => b,
            Err(e) => {
                return Err(e);
            },
        };
        let in_local = self.find_local(&key);
        let in_mirror = self.find_mirror(&key);
        proof {
            lemma_delete_wf(old(self)@, id@, now_ms);
            if old(self)@.tidy() {
                lemma_delete_tidy(old(self)@, id@, now_ms);
            }
        }
        match in_local {
            Some(i) => {
                self.local[i].login.hostname = String::new();
                self.local[i].login.username = String::new();
                self.local[i].login.password = String::new();
                self.local[i].local_modified = Some(now_ms);
                self.local[i].is_deleted = true;
                self.local[i].sync_status = SyncStatus::Changed;
                assert(self.local[i as int]@ == scrubbed(old(self)@.local_row(id@), now_ms));
            },
            None => match in_mirror {
                Some(j) => {
                    let row = LocalLogin {
                        login: Login {
                            guid: key,
                            hostname: String::new(),
                            form_submit_url: None,
                            http_realm: None,
                            username: String::new(),
                            password: String::new(),
                            username_field: String::new(),
                            password_field: String::new(),
                            time_created: self.mirror[j].login.time_created,
                            time_password_changed: now_ms,
                            time_last_used: 0,
                            times_used: 0,
                        },
                        local_modified: Some(now_ms),
                        is_deleted: true,
                        sync_status: SyncStatus::Changed,
                    };
                    assert(row@ == tombstone_of(old(self)@.mirror_row(id@), now_ms));
                    self.local.push(row);
                },
                None => {},
            },
        }
        if let Some(j) = in_mirror {
            self.mirror[j].is_overridden = true;
        }
        assert(self@.mirror =~= old(self)@.marked(id@));
        assert(self@.local =~= old(self)@.delete(id@, now_ms).local);
        Ok(existed)
    }

    /// Deletes the record `id`, at the time that the clock gives, and says whether it was
    /// visible before.
    pub fn delete(&mut self, id: &str) -> (r: Result<bool, Error>)
        requires
            old(self).wf(),
        ensures
            final(self).wf(),
            final(self).interrupt_counter() == old(self).interrupt_counter(),
            r matches Ok(existed) && existed == old(self)@.is_visible(id@),
            exists|now: i64| final(self)@ == #[trigger] old(self)@.delete(id@, now),
            old(self)@.tidy() ==> final(self)@.tidy(),
    {
        let now_ms = system_time_ms();
        self.delete_at(id, now_ms)
    }

    /// Empties both tables and the sync metadata, without leaving tombstones.
    pub fn wipe_local(&mut self) -> (r: Result<(), Error>)
        requires
            old(self).wf(),
        ensures
            final(self).wf(),
            final(self).interrupt_counter() == old(self).interrupt_counter(),
            r is Ok,
            final(self)@ == StoreView::empty(),
            final(self)@.tidy(),
    {
        self.local = Vec::new();
        self.mirror = Vec::new();
        self.meta = Vec::new();
        assert(self@.local =~= Seq::empty());
        assert(self@.mirror =~= Seq::empty());
        assert(self@.meta =~= Map::empty());
        Ok(())
    }

    /// Deletes every visible record at `now_ms` in three steps, and gives up without a change
    /// where one of the four polls before, between and after them says that an interrupt was
    /// asked for. The polls are put to `scope`, where there is one, else answered by `given`.
    #[verifier::loop_isolation(false)]
    fn wipe_within(
        &mut self,
        now_ms: i64,
        scope: Option<&SqlInterruptScope>,
        given: &[bool],
    ) -> (r: Result<(), Error>)
        requires
            old(self).wf(),
        ensures
            final(self).wf(),
            final(self).interrupt_counter() == old(self).interrupt_counter(),
            scope is None ==> (r is Err <==> any_polled(given@, 4)),
            match r {
                Ok(_) => final(self)@ == old(self)@.wipe(now_ms),
                Err(e) => e@ == ErrorView::Interrupted && final(self)@ == old(self)@,
            },
            old(self)@.tidy() ==> final(self)@.tidy(),
    {
        proof {
            lemma_wipe_wf(self@, now_ms);
            lemma_wipe_shows_nothing(self@, now_ms);
        }
        if poll(scope, given, 0) {
            assert(scope is None ==> polled(given@, 0));
            return Err(Error::Interrupted);
        }
        let ghost scrub = |r: LocalView|
            if r.is_deleted {
                r
            } else {
                scrubbed(r, now_ms)
            };
        let mut local: Vec<LocalLogin> = Vec::new();
        let mut i: usize = 0;
        while i < self.local.len()
            invariant
                i <= self.local.len(),
                local.len() == i,
                forall|k: int| 0 <= k < i ==> (#[trigger] local@[k])@ == scrub(self@.local[k]),
            decreases self.local.len() - i,
        {
            let row = &self.local[i];
            let copy = if row.is_deleted {
                row.clone()
            } else {
                LocalLogin {
                    login: Login {
                        guid: row.login.guid.clone(),
                        hostname: String::new(),
                        form_submit_url: copy_opt(&row.login.form_submit_url),
                        http_realm: copy_opt(&row.login.http_realm),
                        username: String::new(),
                        password: String::new(),
                        username_field: row.login.username_field.clone(),
                        password_field: row.login.password_field.clone(),
                        time_created: row.login.time_created,
                        time_password_changed: row.login.time_password_changed,
                        time_last_used: row.login.time_last_used,
                        times_used: row.login.times_used,
                    },
                    local_modified: Some(now_ms),
                    is_deleted: true,
                    sync_status: SyncStatus::Changed,
                }
            };
            assert(copy@ == scrub(self@.local[i as int]));
            local.push(copy);
            i += 1;
        }
        assert(local_views(local@) =~= self@.local.map_values(scrub));
        if poll(scope, given, 1) {
            assert(scope is None ==> polled(given@, 1));
            return Err(Error::Interrupted);
        }
        let mut mirror: Vec<MirrorLogin> = Vec::new();
        let mut j: usize = 0;
        while j < self.mirror.len()
            invariant
                j <= self.mirror.len(),
                mirror.len() == j,
                forall|k: int| 0 <= k < j ==> (#[trigger] mirror@[k])@ == overridden(self@.mirror[k]),
            decreases self.mirror.len() - j,
        {
            let row = &self.mirror[j];
            mirror.push(
                MirrorLogin {
                    login: row.login.clone(),
                    server_modified: row.server_modified,
                    is_overridden: true,
                },
            );
            j += 1;
        }
        assert(mirror_views(mirror@) =~= self@.mirror.map_values(|m: MirrorView| overridden(m)));
        if poll(scope, given, 2) {
            assert(scope is None ==> polled(given@, 2));
            return Err(Error::Interrupted);
        }
        let ghost scrubbed_rows = local@;
        let ghost mut stones: Seq<LocalView> = Seq::empty();
        let mut m: usize = 0;
        assert(self@.mirror.take(0) =~= Seq::empty());
        assert(local_views(local@) =~= local_views(scrubbed_rows) + stones);
        while m < self.mirror.len()
            invariant
                self.wf(),
                m <= self.mirror.len(),
                stones == wipe_tombstones(self@, self@.mirror.take(m as int), now_ms),
                local_views(local@) == local_views(scrubbed_rows) + stones,
            decreases self.mirror.len() - m,
        {
            let row = &self.mirror[m];
            proof {
                lemma_take_next(self@.mirror, m as int);
                lemma_wipe_tombstones_push(
                    self@,
                    self@.mirror.take(m as int),
                    self@.mirror[m as int],
                    now_ms,
                );
                assert(self@.mirror[m as int].is_overridden <==> self@.has_local(
                    self@.mirror[m as int].login.guid,
                ));
            }
            if !row.is_overridden {
                let stone = LocalLogin {
                    login: Login {
                        guid: row.login.guid.clone(),
                        hostname: String::new(),
                        form_submit_url: None,
                        http_realm: None,
                        username: String::new(),
                        password: String::new(),
                        username_field: String::new(),
                        password_field: String::new(),
                        time_created: row.login.time_created,
                        time_password_changed: now_ms,
                        time_last_used: 0,
                        times_used: 0,
                    },
                    local_modified: Some(now_ms),
                    is_deleted: true,
                    sync_status: SyncStatus::Changed,
                };
                assert(stone@ == tombstone_of(self@.mirror[m as int], now_ms));
                let ghost before = local@;
                local.push(stone);
                proof {
                    assert(local_views(local@) =~= local_views(before).push(stone@));
                    assert(local_views(scrubbed_rows) + stones.push(stone@) =~= (local_views(
                        scrubbed_rows,
                    ) + stones).push(stone@));
                    stones = stones.push(stone@);
                }
            }
            m += 1;
        }
        assert(self@.mirror.take(m as int) =~= self@.mirror);
        if poll(scope, given, 3) {
            assert(scope is None ==> polled(given@, 3));
            return Err(Error::Interrupted);
        }
        self.local = local;
        self.mirror = mirror;
        Ok(())
    }

    /// Deletes every visible record at `now_ms`: every local row that is no tombstone becomes
    /// one, every mirror row is overridden, and every mirror row without a local row gets a
    /// tombstone in front of it.
    pub fn wipe_at(&mut self, now_ms: i64)
        requires
            old(self).wf(),
        ensures
            final(self).wf(),
            final(self).interrupt_counter() == old(self).interrupt_counter(),
            final(self)@ == old(self)@.wipe(now_ms),
            final(self)@.visible() == Seq::<LoginView>::empty(),
            final(self)@.tidy(),
    {
        proof {
            lemma_wipe_shows_nothing(self@, now_ms);
        }
        let no_polls: Vec<bool> = Vec::new();
        let _ = self.wipe_within(now_ms, None, no_polls.as_slice());
    }

    /// Deletes every visible record at `now_ms`, unless one of the four polls before, between
    /// and after the three steps says that an interrupt was asked for; then nothing is
    /// changed. `interrupted` holds what the polls say, in their order.
    pub fn wipe_polled(&mut self, now_ms: i64, interrupted: &[bool]) -> (r: Result<(), Error>)
        requires
            old(self).wf(),
        ensures
            final(self).wf(),
            final(self).interrupt_counter() == old(self).interrupt_counter(),
            r is Err <==> any_polled(interrupted@, 4),
            match r {
                Ok(_) => final(self)@ == old(self)@.wipe(now_ms),
                Err(e) => e@ == ErrorView::Interrupted && final(self)@ == old(self)@,
            },
            old(self)@.tidy() ==> final(self)@.tidy(),
    {
        self.wipe_within(now_ms, None, interrupted)
    }

    /// Deletes every visible record at the time that the clock gives, unless an interrupt is
    /// noticed in `scope` before, between or after the three steps; then nothing is changed.
    pub fn wipe(&mut self, scope: &SqlInterruptScope) -> (r: Result<(), Error>)
        requires
            old(self).wf(),
        ensures
            final(self).wf(),
            final(self).interrupt_counter() == old(self).interrupt_counter(),
            match r {
                Ok(_) => final(self)@.visible() == Seq::<LoginView>::empty() && exists|now: i64|
                    final(self)@ == #[trigger] old(self)@.wipe(now),
                Err(e) => e@ == ErrorView::Interrupted && final(self)@ == old(self)@,
            },
            old(self)@.tidy() ==> final(self)@.tidy(),
    {
        let now_ms = system_time_ms();
        proof {
            lemma_wipe_shows_nothing(self@, now_ms);
        }
        let no_polls: Vec<bool> = Vec::new();
        self.wipe_within(now_ms, Some(scope), no_polls.as_slice())
    }

    /// The first phase of the import of `login`: its canonical form, provided that it
    /// duplicates no visible login.
    fn import_fixup(&self, login: &Login) -> (r: Result<Login, Error>)
        requires
            self.wf(),
        ensures
            match r {
                Ok(f) => fixed(login@) == Ok::<LoginView, InvalidLogin>(f@) && !self@.dupe_exists(
                    f@,
                ),
                Err(e) => match fixed(login@) {
                    Err(fault) => e@ == ErrorView::InvalidLogin(fault),
                    Ok(f) => self@.dupe_exists(f) && e@ == ErrorView::InvalidLogin(
                        InvalidLogin::DuplicateLogin,
                    ),
                },
            },
    {
        let f: Login = match login.maybe_fixup() {
            Ok(None) => login.clone(),
            Ok(Some(f)) => f,
            Err(e) => {
                return Err(e);
            },
        };
        match self.check_for_dupes(&f) {
            Ok(_) => Ok(f),
            Err(e) => Err(e),
        }
    }

    /// The second phase of the import of a login: stores the canonical login `f` at `now_ms`
    /// under its own identifier where a sync server accepts that, else under `fresh`.
    fn import_insert(&mut self, f: Login, now_ms: i64, fresh: String) -> (r: Result<(), Error>)
        requires
            old(self).wf(),
            valid_for_sync_server(f@.guid) || fresh@.len() > 0,
        ensures
            final(self).wf(),
            final(self).interrupt_counter() == old(self).interrupt_counter(),
            match r {
                Ok(_) => {
                    &&& !old(self)@.has_local(import_guid(f@, fresh@))
                    &&& !old(self)@.has_mirror(import_guid(f@, fresh@))
                    &&& final(self)@ == (StoreView {
                        local: old(self)@.local.push(
                            new_row(LoginView { guid: import_guid(f@, fresh@), ..f@ }, now_ms),
                        ),
                        ..old(self)@
                    })
                },
                Err(e) => {
                    &&& old(self)@.has_local(import_guid(f@, fresh@)) || old(self)@.has_mirror(
                        import_guid(f@, fresh@),
                    )
                    &&& e@ == ErrorView::DuplicateGuid(import_guid(f@, fresh@))
                    &&& final(self)@ == old(self)@
                },
            },
    {
        let guid: String = if is_valid_for_sync_server(f.guid.as_str()) {
            f.guid
        } else {
            fresh
        };
        if self.find_local(&guid).is_some() || self.find_mirror(&guid).is_some() {
            return Err(Error::DuplicateGuid(guid));
        }
        let row = LocalLogin {
            login: Login {
                guid,
                hostname: f.hostname,
                form_submit_url: f.form_submit_url,
                http_realm: f.http_realm,
                username: f.username,
                password: f.password,
                username_field: f.username_field,
                password_field: f.password_field,
                time_created: f.time_created,
                time_password_changed: f.time_password_changed,
                time_last_used: f.time_last_used,
                times_used: f.times_used,
            },
            local_modified: Some(now_ms),
            is_deleted: false,
            sync_status: SyncStatus::New,
        };
        proof {
            lemma_insert_wf(old(self)@, row@);
        }
        self.local.push(row);
        assert(self@.local =~= old(self)@.local.push(
            new_row(LoginView { guid: import_guid(f@, fresh@), ..f@ }, now_ms),
        ));
        Ok(())
    }

    /// Imports the canonical login `f` at `now_ms`, with `fresh` at hand as a new identifier:
    /// the login must duplicate no visible login, and is then stored as a new record under its
    /// own identifier where a sync server accepts that, else under `fresh`.
    pub fn import_fixed(&mut self, f: Login, now_ms: i64, fresh: String) -> (r: ImportOutcome)
        requires
            old(self).wf(),
            valid_for_sync_server(f@.guid) || fresh@.len() > 0,
        ensures
            final(self).wf(),
            final(self).interrupt_counter() == old(self).interrupt_counter(),
            (final(self)@, r@) == old(self)@.import_fixed(f@, now_ms, fresh@),
    {
        match self.check_for_dupes(&f) {
            Err(e) => ImportOutcome::FailedFixup(e),
            Ok(_) => match self.import_insert(f, now_ms, fresh) {
                Ok(_) => ImportOutcome::Imported,
                Err(e) => ImportOutcome::FailedInsert(e),
            },
        }
    }

    /// Imports `login` at `now_ms`, with `fresh` at hand as a new identifier: the login is made
    /// canonical and must duplicate no visible login, and is then stored as a new record under
    /// its own identifier where a sync server accepts that, else under `fresh`.
    pub fn import_one(&mut self, login: &Login, now_ms: i64, fresh: String) -> (r: ImportOutcome)
        requires
            old(self).wf(),
            valid_for_sync_server(login@.guid) || fresh@.len() > 0,
        ensures
            final(self).wf(),
            final(self).interrupt_counter() == old(self).interrupt_counter(),
            (final(self)@, r@) == old(self)@.import_one(login@, now_ms, fresh@),
            old(self)@.tidy() && shown_ids_valid(old(self)@) && (valid_for_sync_server(login@.guid)
                || valid_for_sync_server(fresh@)) ==> final(self)@.tidy() && shown_ids_valid(
                final(self)@,
            ),
    {
        proof {
            if old(self)@.tidy() && shown_ids_valid(old(self)@) && (valid_for_sync_server(
                login@.guid,
            ) || valid_for_sync_server(fresh@)) {
                lemma_import_one_tidy(old(self)@, login@, now_ms, fresh@);
            }
        }
        let f: Login = match login.maybe_fixup() {
            Ok(None) => login.clone(),
            Ok(Some(f)) => f,
            Err(e) => {
                return ImportOutcome::FailedFixup(e);
            },
        };
        self.import_fixed(f, now_ms, fresh)
    }

    /// Imports `logins` into a store whose tables are empty, and gives up without a change
    /// where one of the polls before each login and after the last says that an interrupt was
    /// asked for. The polls are put to `scope`, where there is one, else answered by `given`.
    #[verifier::loop_isolation(false)]
    fn import_within(
        &mut self,
        logins: &[Login],
        scope: Option<&SqlInterruptScope>,
        given: &[bool],
    ) -> (r: Result<MigrationMetrics, Error>)
        requires
            old(self).wf(),
        ensures
            final(self).wf(),
            final(self).interrupt_counter() == old(self).interrupt_counter(),
            !old(self)@.has_no_rows() ==> (r matches Err(e) && e@ == ErrorView::NonEmptyTable)
                && final(self)@ == old(self)@,
            old(self)@.has_no_rows() && scope is None ==> (r is Err <==> any_polled(
                given@,
                logins.len() + 1,
            )),
            old(self)@.has_no_rows() ==> match r {
                Ok(m) => exists|now: i64, fresh: Seq<Seq<char>>, fixup_ms: u128, elapsed_ms: u128| #[trigger]
                    import_yields(
                        old(self)@,
                        login_views(logins@),
                        now,
                        fresh,
                        fixup_ms,
                        elapsed_ms,
                        final(self)@,
                        m@,
                    ),
                Err(e) => e@ == ErrorView::Interrupted && final(self)@ == old(self)@,
            },
            r matches Ok(m) ==> m.num_processed == logins.len() && m.num_succeeded + m.num_failed
                == m.num_processed,
            r matches Ok(m) ==> add_up(m@, logins.len() as int),
            r is Ok ==> final(self)@.tidy(),
    {
        if self.local.len() > 0 || self.mirror.len() > 0 {
            assert(self@.local.len() == self.local.len() && self@.mirror.len() == self.mirror.len());
            return Err(Error::NonEmptyTable);
        }
        let now_ms = system_time_ms();
        let import_start = stopwatch();
        let mut fixup_ms: u128 = 0;
        let mut fixup_errors: Vec<String> = Vec::new();
        let mut insert_errors: Vec<String> = Vec::new();
        let ghost views = login_views(logins@);
        let ghost mut fresh: Seq<Seq<char>> = Seq::empty();
        let ghost mut outcomes: Seq<ImportOutcomeView> = Seq::empty();
        let mut i: usize = 0;
        proof {
            assert(views.take(0) =~= Seq::empty());
            assert(texts(fixup_errors@) =~= Seq::empty());
            assert(texts(insert_errors@) =~= Seq::empty());
        }
        while i < logins.len()
            invariant
                self.wf(),
                i <= logins.len(),
                views == login_views(logins@),
                fresh.len() == i,
                outcomes.len() == i,
                (self@, outcomes) == old(self)@.import_all(views.take(i as int), now_ms, fresh),
                texts(fixup_errors@) == fixup_labels(outcomes),
                texts(insert_errors@) == insert_labels(outcomes),
                fixup_errors.len() + insert_errors.len() <= i,
                self@.tidy(),
                shown_ids_valid(self@),
                self@.mirror == old(self)@.mirror,
                self@.meta == old(self)@.meta,
                self.interrupt_counter() == old(self).interrupt_counter(),
                scope is None ==> !any_polled(given@, i as int),
            decreases logins.len() - i,
        {
            if poll(scope, given, i) {
                self.local = Vec::new();
                assert(self@.local =~= old(self)@.local);
                assert(scope is None ==> polled(given@, i as int));
                return Err(Error::Interrupted);
            }
            let login = &logins[i];
            let ghost before = self@;
            let pick: String = if is_valid_for_sync_server(login.guid.as_str()) {
                String::new()
            } else {
                random_guid()
            };
            let ghost pick_view = pick@;
            proof {
                lemma_import_one_tidy(before, login@, now_ms, pick_view);
                lemma_take_next(views, i as int);
                lemma_import_all_agrees(
                    old(self)@,
                    views.take(i as int),
                    now_ms,
                    fresh,
                    fresh.push(pick_view),
                );
                lemma_filter_map_push(
                    outcomes,
                    before.import_one(login@, now_ms, pick_view).1,
                    |o: ImportOutcomeView|
                        match o {
                            ImportOutcomeView::FailedFixup(e) => Some(error_label(e)),
                            _ => None,
                        },
                );
                lemma_filter_map_push(
                    outcomes,
                    before.import_one(login@, now_ms, pick_view).1,
                    |o: ImportOutcomeView|
                        match o {
                            ImportOutcomeView::FailedInsert(e) => Some(error_label(e)),
                            _ => None,
                        },
                );
            }
            match self.import_fixup(login) {
                Err(e) => {
                    let label: String = e.label().to_owned();
                    assert(texts(fixup_errors@.push(label)) =~= texts(fixup_errors@).push(label@));
                    fixup_errors.push(label);
                },
                Ok(f) => {
                    fixup_ms = elapsed_ms(&import_start);
                    match self.import_insert(f, now_ms, pick) {
                        Ok(_) => {},
                        Err(e) => {
                            let label: String = e.label().to_owned();
                            assert(texts(insert_errors@.push(label)) =~= texts(
                                insert_errors@,
                            ).push(label@));
                            insert_errors.push(label);
                        },
                    }
                },
            }
            proof {
                fresh = fresh.push(pick_view);
                outcomes = outcomes.push(before.import_one(login@, now_ms, pick_view).1);
            }
            i += 1;
        }
        assert(views.take(i as int) =~= views);
        if poll(scope, given, i) {
            self.local = Vec::new();
            assert(self@.local =~= old(self)@.local);
            assert(scope is None ==> polled(given@, i as int));
            return Err(Error::Interrupted);
        }
        let elapsed = elapsed_ms(&import_start);
        proof {
            crate::laws::law_metrics_add_up(
                logins.len() as u64,
                texts(fixup_errors@),
                texts(insert_errors@),
                fixup_ms,
                elapsed,
            );
        }
        let metrics = MigrationMetrics::assemble(
            logins.len() as u64,
            fixup_errors,
            insert_errors,
            fixup_ms,
            elapsed,
        );
        let r: Result<MigrationMetrics, Error> = Ok(metrics);
        assert(r matches Ok(m) && import_yields(
            old(self)@,
            views,
            now_ms,
            fresh,
            fixup_ms,
            elapsed,
            self@,
            m@,
        ));
        r
    }

    /// Imports `logins` into a store whose tables are empty, and reports what became of them.
    /// A store that holds a row is left as it is. Each login goes through a fix-up phase, in
    /// which it is made canonical and checked against what is visible by then, and, if it
    /// passes, through an insert phase, in which it is stored under its own identifier where a
    /// sync server accepts that, else under one that is drawn at random. A login that fails
    /// is counted under the label of its error and passed over; so is a login whose identifier
    /// is taken by then, which is not stored and counts as failed in the insert phase.
    pub fn import_multiple(&mut self, logins: &[Login]) -> (r: Result<MigrationMetrics, Error>)
        requires
            old(self).wf(),
        ensures
            final(self).wf(),
            final(self).interrupt_counter() == old(self).interrupt_counter(),
            !old(self)@.has_no_rows() ==> (r matches Err(e) && e@ == ErrorView::NonEmptyTable)
                && final(self)@ == old(self)@,
            old(self)@.has_no_rows() ==> (r matches Ok(m) && exists|
                now: i64,
                fresh: Seq<Seq<char>>,
                fixup_ms: u128,
                elapsed_ms: u128,
            | #[trigger]
                import_yields(
                    old(self)@,
                    login_views(logins@),
                    now,
                    fresh,
                    fixup_ms,
                    elapsed_ms,
                    final(self)@,
                    m@,
                )),
            r matches Ok(m) ==> m.num_processed == logins.len() && m.num_succeeded + m.num_failed
                == m.num_processed,
            r matches Ok(m) ==> add_up(m@, logins.len() as int),
            r is Ok ==> final(self)@.tidy(),
    {
        let no_polls: Vec<bool> = Vec::new();
        self.import_within(logins, None, no_polls.as_slice())
    }

    /// Imports `logins` as [`Self::import_multiple`] does, unless one of the polls before each
    /// login and after the last says that an interrupt was asked for; then nothing is
    /// imported. `interrupted` holds what the polls say, in their order.
    pub fn import_multiple_polled(&mut self, logins: &[Login], interrupted: &[bool]) -> (r: Result<
        MigrationMetrics,
        Error,
    >)
        requires
            old(self).wf(),
        ensures
            final(self).wf(),
            final(self).interrupt_counter() == old(self).interrupt_counter(),
            !old(self)@.has_no_rows() ==> (r matches Err(e) && e@ == ErrorView::NonEmptyTable)
                && final(self)@ == old(self)@,
            old(self)@.has_no_rows() ==> (r is Err <==> any_polled(
                interrupted@,
                logins.len() + 1,
            )),
            old(self)@.has_no_rows() ==> match r {
                Ok(m) => exists|now: i64, fresh: Seq<Seq<char>>, fixup_ms: u128, elapsed_ms: u128| #[trigger]
                    import_yields(
                        old(self)@,
                        login_views(logins@),
                        now,
                        fresh,
                        fixup_ms,
                        elapsed_ms,
                        final(self)@,
                        m@,
                    ),
                Err(e) => e@ == ErrorView::Interrupted && final(self)@ == old(self)@,
            },
            r matches Ok(m) ==> m.num_processed == logins.len() && m.num_succeeded + m.num_failed
                == m.num_processed,
            r matches Ok(m) ==> add_up(m@, logins.len() as int),
            r is Ok ==> final(self)@.tidy(),
    {
        self.import_within(logins, None, interrupted)
    }

    /// Imports `logins` as [`Self::import_multiple`] does, unless an interrupt is noticed in
    /// `scope` before a login is taken up or after the last; then nothing is imported.
    pub fn import_multiple_in_scope(&mut self, logins: &[Login], scope: &SqlInterruptScope) -> (r:
        Result<MigrationMetrics, Error>)
        requires
            old(self).wf(),
        ensures
            final(self).wf(),
            final(self).interrupt_counter() == old(self).interrupt_counter(),
            !old(self)@.has_no_rows() ==> (r matches Err(e) && e@ == ErrorView::NonEmptyTable)
                && final(self)@ == old(self)@,
            old(self)@.has_no_rows() ==> match r {
                Ok(m) => exists|now: i64, fresh: Seq<Seq<char>>, fixup_ms: u128, elapsed_ms: u128| #[trigger]
                    import_yields(
                        old(self)@,
                        login_views(logins@),
                        now,
                        fresh,
                        fixup_ms,
                        elapsed_ms,
                        final(self)@,
                        m@,
                    ),
                Err(e) => e@ == ErrorView::Interrupted && final(self)@ == old(self)@,
            },
            r matches Ok(m) ==> m.num_processed == logins.len() && m.num_succeeded + m.num_failed
                == m.num_processed,
            r matches Ok(m) ==> add_up(m@, logins.len() as int),
            r is Ok ==> final(self)@.tidy(),
    {
        let no_polls: Vec<bool> = Vec::new();
        self.import_within(logins, Some(scope), no_polls.as_slice())
    }

    /// A store that holds the given rows and metadata, as they were read from where they are
    /// kept; `None` where the invariants between the tables do not hold of them or a key of
    /// the metadata occurs twice.
    pub fn from_tables(local: Vec<LocalLogin>, mirror: Vec<MirrorLogin>, meta: Vec<MetaEntry>) -> (r:
        Option<LoginDb>)
        ensures
            match r {
                Some(db) => db.wf() && db@ == (StoreView {
                    local: local_views(local@),
                    mirror: mirror_views(mirror@),
                    meta: meta_map(meta@),
                }),
                None => !distinct_keys(meta@) || !(StoreView {
                    local: local_views(local@),
                    mirror: mirror_views(mirror@),
                    meta: meta_map(meta@),
                }).wf(),
            },
    {
        if !tables_in_order(&local, &mirror) || !keys_distinct(&meta) {
            return None;
        }
        Some(LoginDb { local, mirror, meta, interrupt_counter: Arc::new(AtomicUsize::new(0)) })
    }

    /// The rows of the local overlay, tombstones included, in the order of their insertion.
    pub fn local_rows(&self) -> (r: Vec<LocalLogin>)
        ensures
            local_views(r@) == self@.local,
    {
        let mut out: Vec<LocalLogin> = Vec::new();
        let mut i: usize = 0;
        while i < self.local.len()
            invariant
                i <= self.local.len(),
                out.len() == i,
                forall|k: int| 0 <= k < i ==> (#[trigger] out@[k])@ == self.local@[k]@,
            decreases self.local.len() - i,
        {
            out.push(self.local[i].clone());
            i += 1;
        }
        assert(local_views(out@) =~= self@.local);
        out
    }

    /// The rows of the mirror, in the order of their insertion.
    pub fn mirror_rows(&self) -> (r: Vec<MirrorLogin>)
        ensures
            mirror_views(r@) == self@.mirror,
    {
        let mut out: Vec<MirrorLogin> = Vec::new();
        let mut i: usize = 0;
        while i < self.mirror.len()
            invariant
                i <= self.mirror.len(),
                out.len() == i,
                forall|k: int| 0 <= k < i ==> (#[trigger] out@[k])@ == self.mirror@[k]@,
            decreases self.mirror.len() - i,
        {
            out.push(self.mirror[i].clone());
            i += 1;
        }
        assert(mirror_views(out@) =~= self@.mirror);
        out
    }

    /// The entries of the sync metadata, each key once.
    pub fn meta_entries(&self) -> (r: Vec<MetaEntry>)
        requires
            self.wf(),
        ensures
            distinct_keys(r@),
            meta_map(r@) == self@.meta,
    {
        let mut out: Vec<MetaEntry> = Vec::new();
        let mut i: usize = 0;
        while i < self.meta.len()
            invariant
                i <= self.meta.len(),
                out.len() == i,
                forall|k: int|
                    0 <= k < i ==> (#[trigger] out@[k]).key@ == self.meta@[k].key@ && out@[k].value@
                        == self.meta@[k].value@,
            decreases self.meta.len() - i,
        {
            out.push(MetaEntry { key: self.meta[i].key.clone(), value: self.meta[i].value.clone() });
            i += 1;
        }
        proof {
            assert forall|a: int, b: int| 0 <= a < b < out.len() implies (#[trigger] out@[a]).key@ != (
            #[trigger] out@[b]).key@ by {
                assert(self.meta@[a].key@ != self.meta@[b].key@);
            }
            assert forall|k: Seq<char>| meta_map(out@).dom().contains(k) <==> self@.meta.dom().contains(
                k,
            ) by {
                if meta_map(out@).dom().contains(k) {
                    let i = choose|i: int| 0 <= i < out.len() && (#[trigger] out@[i]).key@ == k;
                    assert(self.meta@[i].key@ == k);
                }
                if self@.meta.dom().contains(k) {
                    let i = choose|i: int| 0 <= i < self.meta.len() && (#[trigger] self.meta@[i]).key@ == k;
                    assert(out@[i].key@ == k);
                }
            }
            assert forall|k: Seq<char>| meta_map(out@).dom().contains(k) implies meta_map(out@)[k]
                == self@.meta[k] by {
                let i = choose|i: int| 0 <= i < out.len() && (#[trigger] out@[i]).key@ == k;
                lemma_meta_entry(out@, i);
                lemma_meta_entry(self.meta@, i);
            }
            assert(meta_map(out@) =~= self@.meta);
        }
        out
    }

    /// Sets the value of `key` in the sync metadata, in place of the one it had, if any.
    pub fn put_meta(&mut self, key: &str, value: &str) -> (r: Result<(), Error>)
        requires
            old(self).wf(),
        ensures
            final(self).wf(),
            final(self).interrupt_counter() == old(self).interrupt_counter(),
            r is Ok,
            final(self)@ == (StoreView { meta: old(self)@.meta.insert(key@, value@), ..old(self)@ }),
    {
        let k: String = key.to_owned();
        let v: String = value.to_owned();
        let ghost before = self.meta@;
        match position_meta(&self.meta, &k) {
            Some(i) => {
                self.meta[i].value = v;
                proof {
                    let after = self.meta@;
                    assert forall|a: int| 0 <= a < after.len() implies (#[trigger] after[a]).key@
                        == before[a].key@ by {}
                    assert forall|x: Seq<char>| meta_map(after).dom().contains(x) <==> meta_map(
                        before,
                    ).insert(key@, value@).dom().contains(x) by {
                        if meta_map(after).dom().contains(x) {
                            let c = choose|c: int| 0 <= c < after.len() && (#[trigger] after[c]).key@ == x;
                            assert(before[c].key@ == x);
                        }
                        if meta_map(before).dom().contains(x) {
                            let c = choose|c: int| 0 <= c < before.len() && (#[trigger] before[c]).key@ == x;
                            assert(after[c].key@ == x);
                        }
                        if x == key@ {
                            assert(after[i as int].key@ == x);
                        }
                    }
                    assert forall|x: Seq<char>| meta_map(after).dom().contains(x) implies meta_map(
                        after,
                    )[x] == meta_map(before).insert(key@, value@)[x] by {
                        let c = choose|c: int| 0 <= c < after.len() && (#[trigger] after[c]).key@ == x;
                        lemma_meta_entry(after, c);
                        lemma_meta_entry(before, c);
                    }
                    assert(meta_map(after) =~= meta_map(before).insert(key@, value@));
                }
            },
            None => {
                self.meta.push(MetaEntry { key: k, value: v });
                proof {
                    let after = self.meta@;
                    let n = before.len() as int;
                    assert forall|a: int| 0 <= a < n implies (#[trigger] after[a]) == before[a] by {}
                    assert forall|x: Seq<char>| meta_map(after).dom().contains(x) <==> meta_map(
                        before,
                    ).insert(key@, value@).dom().contains(x) by {
                        if meta_map(after).dom().contains(x) {
                            let c = choose|c: int| 0 <= c < after.len() && (#[trigger] after[c]).key@ == x;
                            if c < n {
                                assert(before[c].key@ == x);
                            }
                        }
                        if meta_map(before).dom().contains(x) {
                            let c = choose|c: int| 0 <= c < before.len() && (#[trigger] before[c]).key@ == x;
                            assert(after[c].key@ == x);
                        }
                        if x == key@ {
                            assert(after[n].key@ == x);
                        }
                    }
                    assert forall|x: Seq<char>| meta_map(after).dom().contains(x) implies meta_map(
                        after,
                    )[x] == meta_map(before).insert(key@, value@)[x] by {
                        let c = choose|c: int| 0 <= c < after.len() && (#[trigger] after[c]).key@ == x;
                        lemma_meta_entry(after, c);
                        if c < n {
                            lemma_meta_entry(before, c);
                        }
                    }
                    assert(meta_map(after) =~= meta_map(before).insert(key@, value@));
                }
            },
        }
        Ok(())
    }

    /// The value of `key` in the sync metadata, if it has one.
    pub fn get_meta(&self, key: &str) -> (r: Result<Option<String>, Error>)
        requires
            self.wf(),
        ensures
            r matches Ok(o) && opt_text(o) == (if self@.meta.dom().contains(key@) {
                Some(self@.meta[key@])
            } else {
                None
            }),
    {
        let k: String = key.to_owned();
        match position_meta(&self.meta, &k) {
            Some(i) => {
                proof {
                    lemma_meta_entry(self.meta@, i as int);
                }
                Ok(Some(self.meta[i].value.clone()))
            },
            None => Ok(None),
        }
    }

    /// Removes `key` and its value from the sync metadata.
    pub fn delete_meta(&mut self, key: &str) -> (r: Result<(), Error>)
        requires
            old(self).wf(),
        ensures
            final(self).wf(),
            final(self).interrupt_counter() == old(self).interrupt_counter(),
            r is Ok,
            final(self)@ == (StoreView { meta: old(self)@.meta.remove(key@), ..old(self)@ }),
    {
        let k: String = key.to_owned();
        let ghost before = self.meta@;
        match position_meta(&self.meta, &k) {
            Some(i) => {
                let _ = self.meta.remove(i);
                proof {
                    let after = self.meta@;
                    assert forall|a: int| 0 <= a < after.len() implies (#[trigger] after[a]) == (if a < i {
                        before[a]
                    } else {
                        before[a + 1]
                    }) by {}
                    assert forall|a: int, b: int| 0 <= a < b < after.len() implies (#[trigger] after[a]).key@
                        != (#[trigger] after[b]).key@ by {
                        let a0 = if a < i { a } else { a + 1 };
                        let b0 = if b < i { b } else { b + 1 };
                        assert(before[a0].key@ != before[b0].key@);
                    }
                    assert forall|x: Seq<char>| meta_map(after).dom().contains(x) <==> meta_map(
                        before,
                    ).remove(key@).dom().contains(x) by {
                        if meta_map(after).dom().contains(x) {
                            let c = choose|c: int| 0 <= c < after.len() && (#[trigger] after[c]).key@ == x;
                            let c0 = if c < i { c } else { c + 1 };
                            assert(before[c0].key@ == x);
                            if c0 < i {
                                assert(before[c0].key@ != before[i as int].key@);
                            } else {
                                assert(before[i as int].key@ != before[c0].key@);
                            }
                        }
                        if meta_map(before).dom().contains(x) && x != key@ {
                            let c = choose|c: int| 0 <= c < before.len() && (#[trigger] before[c]).key@ == x;
                            let c1 = if c < i { c } else { c - 1 };
                            assert(after[c1].key@ == x);
                        }
                    }
                    assert forall|x: Seq<char>| meta_map(after).dom().contains(x) implies meta_map(
                        after,
                    )[x] == meta_map(before).remove(key@)[x] by {
                        let c = choose|c: int| 0 <= c < after.len() && (#[trigger] after[c]).key@ == x;
                        let c0 = if c < i { c } else { c + 1 };
                        lemma_meta_entry(after, c);
                        lemma_meta_entry(before, c0);
                    }
                    assert(meta_map(after) =~= meta_map(before).remove(key@));
                }
            },
            None => {
                assert(meta_map(before) =~= meta_map(before).remove(key@));
            },
        }
        Ok(())
    }

    /// The local rows that the server has not confirmed as they are: those that are new or
    /// changed, tombstones included.
    pub fn pending(&self) -> (r: Vec<LocalLogin>)
        ensures
            local_views(r@) == self@.pending(),
    {
        let ghost keep = |r: LocalView| r.sync_status != SyncStatus::Synced;
        let mut out: Vec<LocalLogin> = Vec::new();
        let mut i: usize = 0;
        proof {
            lemma_filter_empty(keep);
            assert(self@.local.take(0) =~= Seq::empty());
            assert(local_views(out@) =~= Seq::empty());
        }
        while i < self.local.len()
            invariant
                i <= self.local.len(),
                keep == |r: LocalView| r.sync_status != SyncStatus::Synced,
                local_views(out@) == self@.local.take(i as int).filter(keep),
            decreases self.local.len() - i,
        {
            proof {
                lemma_take_next(self@.local, i as int);
                lemma_filter_push(self@.local.take(i as int), self@.local[i as int], keep);
            }
            if !matches!(self.local[i].sync_status, SyncStatus::Synced) {
                let copy = self.local[i].clone();
                assert(local_views(out@.push(copy)) =~= local_views(out@).push(copy@));
                out.push(copy);
            }
            i += 1;
        }
        assert(self@.local.take(i as int) =~= self@.local);
        out
    }

    /// Records that the server has confirmed the local row of the record `id` at
    /// `server_modified`, and says whether there was such a row. The row leaves the local
    /// overlay. Where it was a tombstone, the mirror row of the record leaves too; else the
    /// mirror row takes the login of the local row and is no longer overridden.
    pub fn mark_uploaded(&mut self, id: &str, server_modified: i64) -> (r: bool)
        requires
            old(self).wf(),
        ensures
            final(self).wf(),
            final(self).interrupt_counter() == old(self).interrupt_counter(),
            r == old(self)@.has_local(id@),
            final(self)@ == old(self)@.uploaded(id@, server_modified),
            old(self)@.tidy() ==> final(self)@.tidy(),
    {
        let key: String = id.to_owned();
        let in_local = self.find_local(&key);
        let in_mirror = self.find_mirror(&key);
        proof {
            lemma_uploaded_wf(self@, id@, server_modified);
            if self@.tidy() {
                lemma_uploaded_tidy(self@, id@, server_modified);
            }
        }
        match in_local {
            None => false,
            Some(i) => {
                let row = self.local.remove(i);
                assert(self@.local =~= old(self)@.local.remove(i as int));
                assert(row@ == old(self)@.local_row(id@));
                if row.is_deleted {
                    if let Some(j) = in_mirror {
                        let _ = self.mirror.remove(j);
                        assert(self@.mirror =~= old(self)@.mirror.remove(j as int));
                    }
                } else {
                    let confirmation = MirrorLogin {
                        login: row.login,
                        server_modified,
                        is_overridden: false,
                    };
                    assert(confirmation@ == confirmed(old(self)@.local_row(id@), server_modified));
                    match in_mirror {
                        Some(j) => {
                            self.mirror[j] = confirmation;
                            assert(self@.mirror =~= old(self)@.mirror.update(
                                j as int,
                                confirmed(old(self)@.local_row(id@), server_modified),
                            ));
                        },
                        None => {
                            self.mirror.push(confirmation);
                            assert(self@.mirror =~= old(self)@.mirror.push(
                                confirmed(old(self)@.local_row(id@), server_modified),
                            ));
                        },
                    }
                }
                true
            },
        }
    }

    /// Takes in the login `login` as the server holds it at `server_modified`, and says
    /// whether it was taken in: a login without an identifier is passed over. The mirror row
    /// of the record takes the login, or a mirror row is added, which is overridden exactly
    /// if the record has a local row. A local row that was new is changed from now on.
    pub fn apply_incoming(&mut self, login: Login, server_modified: i64) -> (r: bool)
        requires
            old(self).wf(),
        ensures
            final(self).wf(),
            final(self).interrupt_counter() == old(self).interrupt_counter(),
            r == (login@.guid.len() > 0),
            final(self)@ == old(self)@.received(login@, server_modified),
    {
        if login.guid.as_str().is_empty() {
            return false;
        }
        let in_local = self.find_local(&login.guid);
        let in_mirror = self.find_mirror(&login.guid);
        proof {
            lemma_received_wf(self@, login@, server_modified);
        }
        if let Some(i) = in_local {
            if matches!(self.local[i].sync_status, SyncStatus::New) {
                self.local[i].sync_status = SyncStatus::Changed;
            }
        }
        assert(self@.local =~= old(self)@.received(login@, server_modified).local);
        match in_mirror {
            Some(j) => {
                self.mirror[j].login = login;
                self.mirror[j].server_modified = server_modified;
            },
            None => {
                self.mirror.push(
                    MirrorLogin { login, server_modified, is_overridden: in_local.is_some() },
                );
            },
        }
        assert(self@.mirror =~= old(self)@.received(login@, server_modified).mirror);
        true
    }

    /// The login of the first local row that stands for the same login as `l`, whatever the
    /// two identifiers are, given the host and port `wanted` of the form target of `l`: a row
    /// with the hostname, the realm and the username of `l` whose form target is empty or holds
    /// `wanted`, or which has no form target where there is no `wanted`.
    pub fn find_dupe_by(&self, l: &Login, wanted: &Option<String>) -> (r: Result<Option<Login>, Error>)
        requires
            self.wf(),
        ensures
            r is Ok,
            match r->Ok_0 {
                Some(found) => exists|i: int| #[trigger]
                    self@.is_first_same(l@, opt_text(*wanted), i) && found@ == self@.local[i].login,
                None => forall|i: int|
                    0 <= i < self@.local.len() ==> !is_same_login_by(
                        l@,
                        (#[trigger] self@.local[i]).login,
                        opt_text(*wanted),
                    ),
            },
    {
        let mut i: usize = 0;
        while i < self.local.len()
            invariant
                i <= self.local.len(),
                forall|k: int|
                    0 <= k < i ==> !is_same_login_by(
                        l@,
                        (#[trigger] self@.local[k]).login,
                        opt_text(*wanted),
                    ),
            decreases self.local.len() - i,
        {
            let row = &self.local[i].login;
            let target_ok = match wanted {
                Some(hp) => match &row.form_submit_url {
                    Some(u) => u.as_str().is_empty() || contains_text(u.as_str(), hp.as_str()),
                    None => false,
                },
                None => row.form_submit_url.is_none(),
            };
            assert(target_ok == target_answers(
                self@.local[i as int].login.form_submit_url,
                opt_text(*wanted),
            ));
            if row.hostname == l.hostname && same_opt(&row.http_realm, &l.http_realm) && row.username
                == l.username && target_ok {
                assert(self@.is_first_same(l@, opt_text(*wanted), i as int));
                return Ok(Some(row.clone()));
            }
            i += 1;
        }
        Ok(None)
    }

    /// The login of the first local row that stands for the same login as `l`, whatever the
    /// two identifiers are: a row with the hostname, the realm and the username of `l` whose
    /// form target is empty or holds the host and port of the form target of `l`, or which has
    /// no form target where `l` has none with a host.
    pub fn find_dupe(&self, l: &Login) -> (r: Result<Option<Login>, Error>)
        requires
            self.wf(),
        ensures
            r is Ok,
            match r->Ok_0 {
                Some(found) => exists|i: int| #[trigger]
                    self@.is_first_same(l@, target_host_port(l@.form_submit_url), i) && found@
                        == self@.local[i].login,
                None => forall|i: int|
                    0 <= i < self@.local.len() ==> !is_same_login(
                        l@,
                        (#[trigger] self@.local[i]).login,
                    ),
            },
    {
        let wanted: Option<String> = match &l.form_submit_url {
            Some(u) => url_host_port(u.as_str()),
            None => None,
        };
        self.find_dupe_by(l, &wanted)
    }
}

} // verus!
