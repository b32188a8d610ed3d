//! The login record, its canonical form and the rules that a stored login obeys.

use vstd::prelude::*;
use crate::error::{Error, ErrorView, InvalidLogin};
use crate::text::{contains_char, lemma_trimmed_idempotent, lemma_trimmed_within, opt_text, trim, trimmed};
use crate::urls::{canonical_origin, canonicalize_origin};

verus! {

/// A web login: where it belongs, what it holds and how it has been used.
#[derive(Debug, PartialEq, Eq)]
pub struct Login {
    /// The identifier of the record. Empty on a login that has none yet.
    pub guid: String,
    /// The origin that the login belongs to.
    pub hostname: String,
    /// The origin that the login form submits to; empty where the page gives none.
    pub form_submit_url: Option<String>,
    /// The realm of an HTTP authentication challenge.
    pub http_realm: Option<String>,
    pub username: String,
    pub password: String,
    /// The name of the form field that holds the username.
    pub username_field: String,
    /// The name of the form field that holds the password.
    pub password_field: String,
    /// Milliseconds since the epoch.
    pub time_created: i64,
    /// Milliseconds since the epoch.
    pub time_password_changed: i64,
    /// Milliseconds since the epoch.
    pub time_last_used: i64,
    pub times_used: i64,
}

/// The mathematical value of a [`Login`].
pub struct LoginView {
    pub guid: Seq<char>,
    pub hostname: Seq<char>,
    pub form_submit_url: Option<Seq<char>>,
    pub http_realm: Option<Seq<char>>,
    pub username: Seq<char>,
    pub password: Seq<char>,
    pub username_field: Seq<char>,
    pub password_field: Seq<char>,
    pub time_created: i64,
    pub time_password_changed: i64,
    pub time_last_used: i64,
    pub times_used: i64,
}

impl View for Login {
    type V = LoginView;

    open spec fn view(&self) -> LoginView {
        LoginView {
            guid: self.guid@,
            hostname: self.hostname@,
            form_submit_url: opt_text(self.form_submit_url),
            http_realm: opt_text(self.http_realm),
            username: self.username@,
            password: self.password@,
            username_field: self.username_field@,
            password_field: self.password_field@,
            time_created: self.time_created,
            time_password_changed: self.time_password_changed,
            time_last_used: self.time_last_used,
            times_used: self.times_used,
        }
    }
}

/// The login in which every text is empty, no target is set and every number is zero.
pub open spec fn blank_login() -> LoginView {
    LoginView {
        guid: Seq::empty(),
        hostname: Seq::empty(),
        form_submit_url: None,
        http_realm: None,
        username: Seq::empty(),
        password: Seq::empty(),
        username_field: Seq::empty(),
        password_field: Seq::empty(),
        time_created: 0,
        time_password_changed: 0,
        time_last_used: 0,
        times_used: 0,
    }
}

/// Whether an optional text holds the character NUL.
pub open spec fn opt_has_nul(o: Option<Seq<char>>) -> bool {
    o is Some && o->0.contains('\0')
}

/// Whether one of the text fields of `l`, the identifier aside, holds the character NUL.
pub open spec fn has_nul(l: LoginView) -> bool {
    ||| l.hostname.contains('\0')
    ||| opt_has_nul(l.form_submit_url)
    ||| opt_has_nul(l.http_realm)
    ||| l.username.contains('\0')
    ||| l.password.contains('\0')
    ||| l.username_field.contains('\0')
    ||| l.password_field.contains('\0')
}

/// The first of the basic rules that `l` breaks: a hostname and a password are there, exactly
/// one of the two targets is set, and no text holds NUL.
pub open spec fn basic_fault(l: LoginView) -> Option<InvalidLogin> {
    if l.hostname.len() == 0 {
        Some(InvalidLogin::EmptyOrigin)
    } else if l.password.len() == 0 {
        Some(InvalidLogin::EmptyPassword)
    } else if l.form_submit_url is Some && l.http_realm is Some {
        Some(InvalidLogin::BothTargets)
    } else if l.form_submit_url is None && l.http_realm is None {
        Some(InvalidLogin::NoTarget)
    } else if has_nul(l) {
        Some(InvalidLogin::IllegalFieldValue)
    } else {
        None
    }
}

/// Whether the form target of `l` is to be an origin: it is set and not empty.
pub open spec fn has_target_url(l: LoginView) -> bool {
    l.form_submit_url is Some && l.form_submit_url->0.len() > 0
}

/// The canonical origin of the form target of `l`, where that is to be an origin and has one.
pub open spec fn target_origin(l: LoginView) -> Option<Seq<char>> {
    if has_target_url(l) {
        canonical_origin(l.form_submit_url->0)
    } else {
        None
    }
}

/// What validation decides of `l`, given the canonical origin `target` of its form target:
/// the first rule that `l` breaks, if any. A form target that is not empty must be its own
/// canonical origin.
pub open spec fn valid_by(l: LoginView, target: Option<Seq<char>>) -> Result<(), InvalidLogin> {
    match basic_fault(l) {
        Some(e) => Err(e),
        None => if has_target_url(l) && target != l.form_submit_url {
            Err(InvalidLogin::InvalidFormActionOrigin)
        } else {
            Ok(())
        },
    }
}

/// What `check_valid` decides: the first rule that `l` breaks, if any.
pub open spec fn valid(l: LoginView) -> Result<(), InvalidLogin> {
    valid_by(l, target_origin(l))
}

/// The canonical form of `l`, given the canonical origin `host` of its hostname and the
/// canonical origin `target` of its form target; or the first rule that keeps `l` from having
/// one. The hostname and a form target that is not empty become these origins, and the names
/// of the form fields lose the white space around them; everything else stays.
pub open spec fn fixed_by(l: LoginView, host: Option<Seq<char>>, target: Option<Seq<char>>) -> Result<
    LoginView,
    InvalidLogin,
> {
    match basic_fault(l) {
        Some(e) => Err(e),
        None => match host {
            None => Err(InvalidLogin::InvalidOrigin),
            Some(h) => if has_target_url(l) && target is None {
                Err(InvalidLogin::InvalidFormActionOrigin)
            } else {
                Ok(
                    LoginView {
                        hostname: h,
                        form_submit_url: if has_target_url(l) {
                            target
                        } else {
                            l.form_submit_url
                        },
                        username_field: trimmed(l.username_field),
                        password_field: trimmed(l.password_field),
                        ..l
                    },
                )
            },
        },
    }
}

/// The canonical form of `l`, or the first rule that keeps `l` from having one.
pub open spec fn fixed(l: LoginView) -> Result<LoginView, InvalidLogin> {
    fixed_by(l, canonical_origin(l.hostname), target_origin(l))
}

/// Whether `l` is in canonical form.
pub open spec fn is_canonical(l: LoginView) -> bool {
    fixed(l) == Ok::<LoginView, InvalidLogin>(l)
}

/// Whether the stored login `row` makes `candidate` a duplicate: another record with the same
/// hostname, the same non-empty username, and the same form target or the same realm.
pub open spec fn is_dupe_of(candidate: LoginView, row: LoginView) -> bool {
    &&& row.guid != candidate.guid
    &&& row.hostname == candidate.hostname
    &&& row.username.len() > 0
    &&& row.username == candidate.username
    &&& same_target(candidate, row)
}

/// Whether two logins name the same form target or the same realm.
pub open spec fn same_target(a: LoginView, b: LoginView) -> bool {
    ||| (a.form_submit_url is Some && a.form_submit_url == b.form_submit_url)
    ||| (a.http_realm is Some && a.http_realm == b.http_realm)
}

/// The canonical form of a login is canonical: fixing it again changes nothing.
pub proof fn lemma_fixed_is_canonical(l: LoginView)
    requires
        fixed(l) is Ok,
    ensures
        is_canonical(fixed(l)->Ok_0),
{
    let f = fixed(l)->Ok_0;
    lemma_trimmed_idempotent(l.username_field);
    lemma_trimmed_idempotent(l.password_field);
    if f.username_field.contains('\0') {
        lemma_trimmed_within(l.username_field, '\0');
    }
    if f.password_field.contains('\0') {
        lemma_trimmed_within(l.password_field, '\0');
    }
    assert(basic_fault(f) is None);
}

/// The view of an optional login.
pub open spec fn opt_login(o: Option<Login>) -> Option<LoginView> {
    match o {
        Some(l) => Some(l@),
        None => None,
    }
}

/// A copy of an optional string.
pub fn copy_opt(o: &Option<String>) -> (r: Option<String>)
    ensures
        opt_text(r) == opt_text(*o),
{
    match o {
        Some(s) => Some(s.clone()),
        None => None,
    }
}

/// Whether two optional strings hold the same text, or both none.
pub fn same_opt(a: &Option<String>, b: &Option<String>) -> (r: bool)
    ensures
        r == (opt_text(*a) == opt_text(*b)),
{
    match (a, b) {
        (Some(x), Some(y)) => *x == *y,
        (None, None) => true,
        _ => false,
    }
}

/// Whether an optional string holds the character NUL.
fn opt_contains_nul(o: &Option<String>) -> (r: bool)
    ensures
        r == opt_has_nul(opt_text(*o)),
{
    match o {
        Some(s) => contains_char(s.as_str(), '\0'),
        None => false,
    }
}

impl Clone for Login {
    fn clone(&self) -> (r: Self)
        ensures
            r@ == self@,
    {
        Login {
            guid: self.guid.clone(),
            hostname: self.hostname.clone(),
            form_submit_url: copy_opt(&self.form_submit_url),
            http_realm: copy_opt(&self.http_realm),
            username: self.username.clone(),
            password: self.password.clone(),
            username_field: self.username_field.clone(),
            password_field: self.password_field.clone(),
            time_created: self.time_created,
            time_password_changed: self.time_password_changed,
            time_last_used: self.time_last_used,
            times_used: self.times_used,
        }
    }
}

impl Default for Login {
    fn default() -> (r: Self)
        ensures
            r@ == blank_login(),
    {
        Login {
            guid: String::new(),
            hostname: String::new(),
            form_submit_url: None,
            http_realm: None,
            username: String::new(),
            password: String::new(),
            username_field: String::new(),
            password_field: String::new(),
            time_created: 0,
            time_password_changed: 0,
            time_last_used: 0,
            times_used: 0,
        }
    }
}

impl Login {
    /// Whether `other` names the form target or the realm of this login.
    fn has_same_target(&self, other: &Login) -> (r: bool)
        ensures
            r == same_target(self@, other@),
    {
        (self.form_submit_url.is_some() && same_opt(&self.form_submit_url, &other.form_submit_url))
            || (self.http_realm.is_some() && same_opt(&self.http_realm, &other.http_realm))
    }

    /// Whether the stored login `row` makes this login a duplicate.
    pub fn is_duplicated_by(&self, row: &Login) -> (r: bool)
        ensures
            r == is_dupe_of(self@, row@),
    {
        row.guid != self.guid && row.hostname == self.hostname && !row.username.as_str().is_empty()
            && row.username == self.username && self.has_same_target(row)
    }

    /// Whether `row` has the hostname of this login and its form target or its realm.
    pub fn shares_target_with(&self, row: &Login) -> (r: bool)
        ensures
            r == (row@.hostname == self@.hostname && same_target(self@, row@)),
    {
        row.hostname == self.hostname && self.has_same_target(row)
    }

    /// The identifier of the record.
    pub fn guid_str(&self) -> (r: &str)
        ensures
            r@ == self@.guid,
    {
        self.guid.as_str()
    }

    /// The first of the basic rules that the login breaks, if any.
    fn basic_check(&self) -> (r: Option<InvalidLogin>)
        ensures
            r == basic_fault(self@),
    {
        if self.hostname.as_str().is_empty() {
            return Some(InvalidLogin::EmptyOrigin);
        }
        if self.password.as_str().is_empty() {
            return Some(InvalidLogin::EmptyPassword);
        }
        if self.form_submit_url.is_some() && self.http_realm.is_some() {
            return Some(InvalidLogin::BothTargets);
        }
        if self.form_submit_url.is_none() && self.http_realm.is_none() {
            return Some(InvalidLogin::NoTarget);
        }
        if contains_char(self.hostname.as_str(), '\0') || opt_contains_nul(&self.form_submit_url)
            || opt_contains_nul(&self.http_realm) || contains_char(self.username.as_str(), '\0')
            || contains_char(self.password.as_str(), '\0') || contains_char(
            self.username_field.as_str(),
            '\0',
        ) || contains_char(self.password_field.as_str(), '\0') {
            return Some(InvalidLogin::IllegalFieldValue);
        }
        None
    }

    /// Checks that the login can be stored as it is, given the canonical origin `target` of
    /// its form target where that is not empty.
    pub fn check_valid_with(&self, target: Option<String>) -> (r: Result<(), Error>)
        ensures
            r is Ok <==> valid_by(self@, opt_text(target)) is Ok,
            r matches Err(e) ==> e@ == ErrorView::InvalidLogin(
                valid_by(self@, opt_text(target))->Err_0,
            ),
    {
        if let Some(e) = self.basic_check() {
            return Err(Error::InvalidLogin(e));
        }
        match &self.form_submit_url {
            None => Ok(()),
            Some(u) => {
                if u.as_str().is_empty() || same_opt(&target, &self.form_submit_url) {
                    Ok(())
                } else {
                    Err(Error::InvalidLogin(InvalidLogin::InvalidFormActionOrigin))
                }
            },
        }
    }

    /// The canonical origin of the form target, where that is set and not empty.
    fn canonical_target(&self) -> (r: Option<String>)
        ensures
            opt_text(r) == target_origin(self@),
    {
        match &self.form_submit_url {
            None => None,
            Some(u) => if u.as_str().is_empty() {
                None
            } else {
                canonicalize_origin(u.as_str())
            },
        }
    }

    /// Checks that the login can be stored as it is: hostname and password are there, exactly
    /// one target is set, no text holds NUL, and a form target is empty or a canonical origin.
    pub fn check_valid(&self) -> (r: Result<(), Error>)
        ensures
            r is Ok <==> valid(self@) is Ok,
            r matches Err(e) ==> e@ == ErrorView::InvalidLogin(valid(self@)->Err_0),
    {
        let target = self.canonical_target();
        self.check_valid_with(target)
    }

    /// The canonical form of the login where it differs from the login, `None` where the login
    /// is canonical already, and an error where it has no canonical form; given the canonical
    /// origin `host` of the hostname and the canonical origin `target` of the form target
    /// where that is not empty.
    pub fn maybe_fixup_with(&self, host: Option<String>, target: Option<String>) -> (r: Result<
        Option<Login>,
        Error,
    >)
        ensures
            match r {
                Ok(None) => fixed_by(self@, opt_text(host), opt_text(target)) == Ok::<
                    LoginView,
                    InvalidLogin,
                >(self@),
                Ok(Some(f)) => fixed_by(self@, opt_text(host), opt_text(target)) == Ok::<
                    LoginView,
                    InvalidLogin,
                >(f@) && f@ != self@,
                Err(e) => fixed_by(self@, opt_text(host), opt_text(target)) is Err && e@
                    == ErrorView::InvalidLogin(
                    fixed_by(self@, opt_text(host), opt_text(target))->Err_0,
                ),
            },
    {
        if let Some(e) = self.basic_check() {
            return Err(Error::InvalidLogin(e));
        }
        let hostname = match host {
            Some(h) => h,
            None => {
                return Err(Error::InvalidLogin(InvalidLogin::InvalidOrigin));
            },
        };
        let form_submit_url: Option<String> = match &self.form_submit_url {
            None => None,
            Some(u) => {
                if u.as_str().is_empty() {
                    Some(u.clone())
                } else {
                    match target {
                        Some(c) => Some(c),
                        None => {
                            return Err(
                                Error::InvalidLogin(InvalidLogin::InvalidFormActionOrigin),
                            );
                        },
                    }
                }
            },
        };
        let username_field = trim(self.username_field.as_str());
        let password_field = trim(self.password_field.as_str());
        if hostname == self.hostname && same_opt(&form_submit_url, &self.form_submit_url)
            && username_field == self.username_field && password_field == self.password_field {
            return Ok(None);
        }
        Ok(
            Some(
                Login {
                    guid: self.guid.clone(),
                    hostname,
                    form_submit_url,
                    http_realm: copy_opt(&self.http_realm),
                    username: self.username.clone(),
                    password: self.password.clone(),
                    username_field,
                    password_field,
                    time_created: self.time_created,
                    time_password_changed: self.time_password_changed,
                    time_last_used: self.time_last_used,
                    times_used: self.times_used,
                },
            ),
        )
    }

    /// The canonical form of the login where it differs from the login, `None` where the login
    /// is canonical already, and an error where it has no canonical form.
    pub fn maybe_fixup(&self) -> (r: Result<Option<Login>, Error>)
        ensures
            match r {
                Ok(None) => is_canonical(self@),
                Ok(Some(f)) => fixed(self@) == Ok::<LoginView, InvalidLogin>(f@) && f@ != self@,
                Err(e) => fixed(self@) is Err && e@ == ErrorView::InvalidLogin(
                    fixed(self@)->Err_0,
                ),
            },
    {
        if let Some(e) = self.basic_check() {
            return Err(Error::InvalidLogin(e));
        }
        let host = canonicalize_origin(self.hostname.as_str());
        let target = self.canonical_target();
        self.maybe_fixup_with(host, target)
    }

    /// The canonical form of the login, or the rule that keeps it from having one.
    pub fn fixup(self) -> (r: Result<Login, Error>)
        ensures
            match r {
                Ok(f) => fixed(self@) == Ok::<LoginView, InvalidLogin>(f@),
                Err(e) => fixed(self@) is Err && e@ == ErrorView::InvalidLogin(
                    fixed(self@)->Err_0,
                ),
            },
    {
        match self.maybe_fixup() {
            Ok(None) => Ok(self),
            Ok(Some(f)) => Ok(f),
            Err(e) => Err(e),
        }
    }
}

} // verus!
