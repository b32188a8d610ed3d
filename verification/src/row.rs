//! The rows of the two tables: the local overlay and the server mirror.

use vstd::prelude::*;
use crate::login::{Login, LoginView};

verus! {

/// How a local row stands towards the server.
#[derive(Clone, Copy, Debug, PartialEq, Eq, Structural)]
pub enum SyncStatus {
    /// The server holds the same value.
    Synced,
    /// The row was changed locally since the server last confirmed it.
    Changed,
    /// The row was created locally and the server has never seen it.
    New,
}

/// The number under which a status is persisted: 0 for synced, 1 for changed, 2 for new.
pub open spec fn status_code(s: SyncStatus) -> u8 {
    match s {
        SyncStatus::Synced => 0,
        SyncStatus::Changed => 1,
        SyncStatus::New => 2,
    }
}

impl SyncStatus {
    /// The number under which the status is persisted.
    pub fn code(&self) -> (r: u8)
        ensures
            r == status_code(*self),
    {
        match self {
            SyncStatus::Synced => 0,
            SyncStatus::Changed => 1,
            SyncStatus::New => 2,
        }
    }

    /// The status that is persisted under `code`, if there is one.
    pub fn from_code(code: u8) -> (r: Option<SyncStatus>)
        ensures
            code > 2 <==> r is None,
            r matches Some(s) ==> status_code(s) == code,
    {
        if code == 0 {
            Some(SyncStatus::Synced)
        } else if code == 1 {
            Some(SyncStatus::Changed)
        } else if code == 2 {
            Some(SyncStatus::New)
        } else {
            None
        }
    }
}

/// A row of the local overlay: the current value of a record on this device.
#[derive(Debug)]
pub struct LocalLogin {
    pub login: Login,
    /// When the row was last changed locally, in milliseconds since the epoch; `None` on a
    /// row that was copied from the mirror and not changed since.
    pub local_modified: Option<i64>,
    /// Whether the row is a tombstone.
    pub is_deleted: bool,
    pub sync_status: SyncStatus,
}

/// A row of the mirror: the value of a record that the server last confirmed.
#[derive(Debug)]
pub struct MirrorLogin {
    pub login: Login,
    /// The server's time of the confirmation, in milliseconds since the epoch.
    pub server_modified: i64,
    /// Whether a local row stands in front of this one.
    pub is_overridden: bool,
}

/// The mathematical value of a [`LocalLogin`].
pub struct LocalView {
    pub login: LoginView,
    pub local_modified: Option<i64>,
    pub is_deleted: bool,
    pub sync_status: SyncStatus,
}

/// The mathematical value of a [`MirrorLogin`].
pub struct MirrorView {
    pub login: LoginView,
    pub server_modified: i64,
    pub is_overridden: bool,
}

impl View for LocalLogin {
    type V = LocalView;

    open spec fn view(&self) -> LocalView {
        LocalView {
            login: self.login@,
            local_modified: self.local_modified,
            is_deleted: self.is_deleted,
            sync_status: self.sync_status,
        }
    }
}

impl View for MirrorLogin {
    type V = MirrorView;

    open spec fn view(&self) -> MirrorView {
        MirrorView {
            login: self.login@,
            server_modified: self.server_modified,
            is_overridden: self.is_overridden,
        }
    }
}

impl Clone for LocalLogin {
    fn clone(&self) -> (r: Self)
        ensures
            r@ == self@,
    {
        LocalLogin {
            login: self.login.clone(),
            local_modified: self.local_modified,
            is_deleted: self.is_deleted,
            sync_status: self.sync_status,
        }
    }
}

impl Clone for MirrorLogin {
    fn clone(&self) -> (r: Self)
        ensures
            r@ == self@,
    {
        MirrorLogin {
            login: self.login.clone(),
            server_modified: self.server_modified,
            is_overridden: self.is_overridden,
        }
    }
}

/// The views of a list of local rows, in order.
pub open spec fn local_views(rows: Seq<LocalLogin>) -> Seq<LocalView> {
    rows.map_values(|r: LocalLogin| r@)
}

/// The views of a list of mirror rows, in order.
pub open spec fn mirror_views(rows: Seq<MirrorLogin>) -> Seq<MirrorView> {
    rows.map_values(|r: MirrorLogin| r@)
}

/// The views of a list of logins, in order.
pub open spec fn login_views(rows: Seq<Login>) -> Seq<LoginView> {
    rows.map_values(|r: Login| r@)
}

} // verus!
