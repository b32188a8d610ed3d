//! Rows and metadata entries as they lie in memory, and the checks that tell whether they are
//! in order.

use vstd::prelude::*;
use crate::model::{is_scrubbed, StoreView};
use crate::row::{local_views, mirror_views, LocalLogin, MirrorLogin, SyncStatus};

verus! {

/// One entry of the sync metadata.
#[derive(Debug)]
pub struct MetaEntry {
    pub key: String,
    pub value: String,
}

/// The metadata that a list of entries with distinct keys denotes.
pub open spec fn meta_map(entries: Seq<MetaEntry>) -> Map<Seq<char>, Seq<char>> {
    Map::new(
        |k: Seq<char>| exists|i: int| 0 <= i < entries.len() && (#[trigger] entries[i]).key@ == k,
        |k: Seq<char>|
            entries[choose|i: int| 0 <= i < entries.len() && (#[trigger] entries[i]).key@ == k].value@,
    )
}

/// Whether no key occurs twice in `entries`.
pub open spec fn distinct_keys(entries: Seq<MetaEntry>) -> bool {
    forall|i: int, j: int|
        0 <= i < j < entries.len() ==> (#[trigger] entries[i]).key@ != (#[trigger] entries[j]).key@
}

/// The entry of a list with distinct keys is what the list denotes for its key.
pub proof fn lemma_meta_entry(entries: Seq<MetaEntry>, j: int)
    requires
        distinct_keys(entries),
        0 <= j < entries.len(),
    ensures
        meta_map(entries).dom().contains(entries[j].key@),
        meta_map(entries)[entries[j].key@] == entries[j].value@,
{
    let k = entries[j].key@;
    let c = choose|i: int| 0 <= i < entries.len() && (#[trigger] entries[i]).key@ == k;
    if c < j {
        assert(entries[c].key@ != entries[j].key@);
    } else if j < c {
        assert(entries[j].key@ != entries[c].key@);
    }
}

/// The place of the first row of `rows` with the identifier `g`.
pub(crate) fn position_local(rows: &Vec<LocalLogin>, g: &String) -> (r: Option<usize>)
    ensures
        match r {
            Some(i) => i < rows.len() && rows[i as int]@.login.guid == g@,
            None => forall|k: int| 0 <= k < rows.len() ==> (#[trigger] rows[k])@.login.guid != g@,
        },
{
    let mut i: usize = 0;
    while i < rows.len()
        invariant
            i <= rows.len(),
            forall|k: int| 0 <= k < i ==> (#[trigger] rows[k])@.login.guid != g@,
        decreases rows.len() - i,
    {
        if rows[i].login.guid == *g {
            return Some(i);
        }
        i += 1;
    }
    None
}

/// The place of the first row of `rows` with the identifier `g`.
pub(crate) fn position_mirror(rows: &Vec<MirrorLogin>, g: &String) -> (r: Option<usize>)
    ensures
        match r {
            Some(i) => i < rows.len() && rows[i as int]@.login.guid == g@,
            None => forall|k: int| 0 <= k < rows.len() ==> (#[trigger] rows[k])@.login.guid != g@,
        },
{
    let mut i: usize = 0;
    while i < rows.len()
        invariant
            i <= rows.len(),
            forall|k: int| 0 <= k < i ==> (#[trigger] rows[k])@.login.guid != g@,
        decreases rows.len() - i,
    {
        if rows[i].login.guid == *g {
            return Some(i);
        }
        i += 1;
    }
    None
}

/// The place of the first entry of `entries` with the key `key`.
pub(crate) fn position_meta(entries: &Vec<MetaEntry>, key: &String) -> (r: Option<usize>)
    ensures
        match r {
            Some(i) => i < entries.len() && entries[i as int].key@ == key@,
            None => forall|k: int| 0 <= k < entries.len() ==> (#[trigger] entries[k]).key@ != key@,
        },
{
    let mut i: usize = 0;
    while i < entries.len()
        invariant
            i <= entries.len(),
            forall|k: int| 0 <= k < i ==> (#[trigger] entries[k]).key@ != key@,
        decreases entries.len() - i,
    {
        if entries[i].key == *key {
            return Some(i);
        }
        i += 1;
    }
    None
}

/// Whether the invariants between the tables hold of the given rows.
pub(crate) fn tables_in_order(local: &Vec<LocalLogin>, mirror: &Vec<MirrorLogin>) -> (r: bool)
    ensures
        r == (StoreView {
            local: local_views(local@),
            mirror: mirror_views(mirror@),
            meta: Map::empty(),
        }).wf(),
{
    let ghost s = StoreView {
        local: local_views(local@),
        mirror: mirror_views(mirror@),
        meta: Map::empty(),
    };
    let mut i: usize = 0;
    while i < local.len()
        invariant
            i <= local.len(),
            s.local == local_views(local@),
            s.mirror == mirror_views(mirror@),
            forall|a: int, b: int|
                0 <= a < b < local.len() && a < i ==> (#[trigger] s.local[a]).login.guid != (
                #[trigger] s.local[b]).login.guid,
            forall|a: int|
                0 <= a < i && (#[trigger] s.local[a]).sync_status == SyncStatus::New
                    ==> !s.has_mirror(s.local[a].login.guid),
            forall|a: int| 0 <= a < i && (#[trigger] s.local[a]).is_deleted ==> is_scrubbed(s.local[a].login),
            forall|a: int| 0 <= a < i ==> (#[trigger] s.local[a]).login.guid.len() > 0,
        decreases local.len() - i,
    {
        let row = &local[i];
        if row.login.guid.as_str().is_empty() {
            assert(s.local[i as int].login.guid.len() == 0);
            return false;
        }
        let mut j: usize = i + 1;
        while j < local.len()
            invariant
                i < j <= local.len(),
                s.local == local_views(local@),
                forall|b: int| i < b < j ==> s.local[i as int].login.guid != (#[trigger] s.local[b]).login.guid,
            decreases local.len() - j,
        {
            if local[i].login.guid == local[j].login.guid {
                assert(s.local[i as int].login.guid == s.local[j as int].login.guid);
                return false;
            }
            j += 1;
        }
        if matches!(row.sync_status, SyncStatus::New) {
            if let Some(m) = position_mirror(mirror, &row.login.guid) {
                assert(s.mirror[m as int].login.guid == s.local[i as int].login.guid);
                assert(s.local[i as int].sync_status == SyncStatus::New);
                return false;
            }
            assert forall|k: int| 0 <= k < s.mirror.len() implies (#[trigger] s.mirror[k]).login.guid
                != s.local[i as int].login.guid by {
                assert(mirror[k]@.login.guid != row@.login.guid);
            }
        }
        if row.is_deleted && !(row.login.hostname.as_str().is_empty()
            && row.login.username.as_str().is_empty() && row.login.password.as_str().is_empty()) {
            assert(s.local[i as int].is_deleted && !is_scrubbed(s.local[i as int].login));
            return false;
        }
        i += 1;
    }
    let mut m: usize = 0;
    while m < mirror.len()
        invariant
            m <= mirror.len(),
            s.local == local_views(local@),
            s.mirror == mirror_views(mirror@),
            forall|a: int, b: int|
                0 <= a < b < mirror.len() && a < m ==> (#[trigger] s.mirror[a]).login.guid != (
                #[trigger] s.mirror[b]).login.guid,
            forall|a: int|
                0 <= a < m ==> ((#[trigger] s.mirror[a]).is_overridden <==> s.has_local(
                    s.mirror[a].login.guid,
                )),
            forall|a: int| 0 <= a < m ==> (#[trigger] s.mirror[a]).login.guid.len() > 0,
            forall|a: int| 0 <= a < local.len() ==> (#[trigger] s.local[a]).login.guid.len() > 0,
        decreases mirror.len() - m,
    {
        if mirror[m].login.guid.as_str().is_empty() {
            assert(s.mirror[m as int].login.guid.len() == 0);
            return false;
        }
        let mut j: usize = m + 1;
        while j < mirror.len()
            invariant
                m < j <= mirror.len(),
                s.mirror == mirror_views(mirror@),
                forall|b: int|
                    m < b < j ==> s.mirror[m as int].login.guid != (#[trigger] s.mirror[b]).login.guid,
            decreases mirror.len() - j,
        {
            if mirror[m].login.guid == mirror[j].login.guid {
                assert(s.mirror[m as int].login.guid == s.mirror[j as int].login.guid);
                return false;
            }
            j += 1;
        }
        let in_local = position_local(local, &mirror[m].login.guid);
        proof {
            match in_local {
                Some(at) => {
                    assert(s.local[at as int].login.guid == s.mirror[m as int].login.guid);
                },
                None => {
                    assert forall|k: int| 0 <= k < s.local.len() implies (#[trigger] s.local[k]).login.guid
                        != s.mirror[m as int].login.guid by {
                        assert(local[k]@.login.guid != mirror[m as int]@.login.guid);
                    }
                },
            }
        }
        if mirror[m].is_overridden != in_local.is_some() {
            assert(!(s.mirror[m as int].is_overridden <==> s.has_local(s.mirror[m as int].login.guid)));
            return false;
        }
        m += 1;
    }
    true
}

/// Whether no key occurs twice in `entries`.
pub(crate) fn keys_distinct(entries: &Vec<MetaEntry>) -> (r: bool)
    ensures
        r == distinct_keys(entries@),
{
    let mut i: usize = 0;
    while i < entries.len()
        invariant
            i <= entries.len(),
            forall|a: int, b: int|
                0 <= a < b < entries.len() && a < i ==> (#[trigger] entries[a]).key@ != (
                #[trigger] entries[b]).key@,
        decreases entries.len() - i,
    {
        let mut j: usize = i + 1;
        while j < entries.len()
            invariant
                i < j <= entries.len(),
                forall|b: int| i < b < j ==> entries[i as int].key@ != (#[trigger] entries[b]).key@,
            decreases entries.len() - j,
        {
            if entries[i].key == entries[j].key {
                return false;
            }
            j += 1;
        }
        i += 1;
    }
    true
}

} // verus!
