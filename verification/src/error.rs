//! The errors of the store, their stable labels and their messages.

use vstd::prelude::*;
use vstd::string::StringExecFns;

verus! {

/// Why a login cannot be stored.
#[derive(Clone, Copy, Debug, PartialEq, Eq, Structural)]
pub enum InvalidLogin {
    /// The hostname is empty.
    EmptyOrigin,
    /// The password is empty.
    EmptyPassword,
    /// Another visible login has the same hostname, username and target.
    DuplicateLogin,
    /// Both a form target and an HTTP realm are set.
    BothTargets,
    /// Neither a form target nor an HTTP realm is set.
    NoTarget,
    /// A text field holds a character that cannot be stored.
    IllegalFieldValue,
    /// The hostname is not a URL with an origin.
    InvalidOrigin,
    /// The form target is neither empty nor a URL with an origin.
    InvalidFormActionOrigin,
}

/// What an operation of the store reports when it fails.
#[derive(Debug)]
pub enum Error {
    /// The login handed in is not valid.
    InvalidLogin(InvalidLogin),
    /// A record with this guid is already in the store.
    DuplicateGuid(String),
    /// No record with this guid is in the store.
    NoSuchRecord(String),
    /// A bulk import was asked of a store that already holds records.
    NonEmptyTable,
    /// The operation was cancelled through an interrupt handle.
    Interrupted,
}

/// The mathematical value of an [`Error`].
pub enum ErrorView {
    InvalidLogin(InvalidLogin),
    DuplicateGuid(Seq<char>),
    NoSuchRecord(Seq<char>),
    NonEmptyTable,
    Interrupted,
}

impl View for Error {
    type V = ErrorView;

    open spec fn view(&self) -> ErrorView {
        match self {
            Error::InvalidLogin(e) => ErrorView::InvalidLogin(*e),
            Error::DuplicateGuid(g) => ErrorView::DuplicateGuid(g@),
            Error::NoSuchRecord(g) => ErrorView::NoSuchRecord(g@),
            Error::NonEmptyTable => ErrorView::NonEmptyTable,
            Error::Interrupted => ErrorView::Interrupted,
        }
    }
}

/// The label under which a validation failure is counted. Malformed origins are counted with
/// the other illegal field values, which keeps the vocabulary of labels closed.
pub open spec fn invalid_login_label(e: InvalidLogin) -> Seq<char> {
    match e {
        InvalidLogin::EmptyOrigin => "InvalidLogin::EmptyOrigin"@,
        InvalidLogin::EmptyPassword => "InvalidLogin::EmptyPassword"@,
        InvalidLogin::DuplicateLogin => "InvalidLogin::DuplicateLogin"@,
        InvalidLogin::BothTargets => "InvalidLogin::BothTargets"@,
        InvalidLogin::NoTarget => "InvalidLogin::NoTarget"@,
        InvalidLogin::IllegalFieldValue => "InvalidLogin::IllegalFieldValue"@,
        InvalidLogin::InvalidOrigin => "InvalidLogin::IllegalFieldValue"@,
        InvalidLogin::InvalidFormActionOrigin => "InvalidLogin::IllegalFieldValue"@,
    }
}

/// The label of an error: a short classifier that never holds user data.
pub open spec fn error_label(e: ErrorView) -> Seq<char> {
    match e {
        ErrorView::InvalidLogin(inner) => invalid_login_label(inner),
        ErrorView::DuplicateGuid(_) => "DuplicateGuid"@,
        ErrorView::NoSuchRecord(_) => "NoSuchRecord"@,
        ErrorView::NonEmptyTable => "NonEmptyTable"@,
        ErrorView::Interrupted => "Interrupted"@,
    }
}

/// What is wrong with the login, in words.
pub open spec fn invalid_login_message(e: InvalidLogin) -> Seq<char> {
    match e {
        InvalidLogin::EmptyOrigin => "Origin is empty"@,
        InvalidLogin::EmptyPassword => "Password is empty"@,
        InvalidLogin::DuplicateLogin => "Login already exists"@,
        InvalidLogin::BothTargets => "Both `formSubmitUrl` and `httpRealm` are present"@,
        InvalidLogin::NoTarget => "Neither `formSubmitUrl` or `httpRealm` are present"@,
        InvalidLogin::IllegalFieldValue => "Login has illegal field"@,
        InvalidLogin::InvalidOrigin => "Origin is malformed"@,
        InvalidLogin::InvalidFormActionOrigin => "Form action origin is malformed"@,
    }
}

/// The message of an error, as shown to a person.
pub open spec fn error_message(e: ErrorView) -> Seq<char> {
    match e {
        ErrorView::InvalidLogin(inner) => "Invalid login: "@ + invalid_login_message(inner),
        ErrorView::DuplicateGuid(g) => "A duplicate GUID is present: "@ + g,
        ErrorView::NoSuchRecord(g) => "No record with guid exists (when one was required): "@ + g,
        ErrorView::NonEmptyTable => "The logins tables are not empty"@,
        ErrorView::Interrupted => "The operation was interrupted"@,
    }
}

impl InvalidLogin {
    /// The stable label of this failure.
    pub fn label(&self) -> (r: &'static str)
        ensures
            r@ == invalid_login_label(*self),
    {
        match self {
            InvalidLogin::EmptyOrigin => "InvalidLogin::EmptyOrigin",
            InvalidLogin::EmptyPassword => "InvalidLogin::EmptyPassword",
            InvalidLogin::DuplicateLogin => "InvalidLogin::DuplicateLogin",
            InvalidLogin::BothTargets => "InvalidLogin::BothTargets",
            InvalidLogin::NoTarget => "InvalidLogin::NoTarget",
            InvalidLogin::IllegalFieldValue => "InvalidLogin::IllegalFieldValue",
            InvalidLogin::InvalidOrigin => "InvalidLogin::IllegalFieldValue",
            InvalidLogin::InvalidFormActionOrigin => "InvalidLogin::IllegalFieldValue",
        }
    }

    /// The message of this failure.
    pub fn message(&self) -> (r: &'static str)
        ensures
            r@ == invalid_login_message(*self),
    {
        match self {
            InvalidLogin::EmptyOrigin => "Origin is empty",
            InvalidLogin::EmptyPassword => "Password is empty",
            InvalidLogin::DuplicateLogin => "Login already exists",
            InvalidLogin::BothTargets => "Both `formSubmitUrl` and `httpRealm` are present",
            InvalidLogin::NoTarget => "Neither `formSubmitUrl` or `httpRealm` are present",
            InvalidLogin::IllegalFieldValue => "Login has illegal field",
            InvalidLogin::InvalidOrigin => "Origin is malformed",
            InvalidLogin::InvalidFormActionOrigin => "Form action origin is malformed",
        }
    }
}

impl Error {
    /// The stable label of this error, fit for metrics and logs.
    pub fn label(&self) -> (r: &'static str)
        ensures
            r@ == error_label(self@),
    {
        match self {
            Error::InvalidLogin(inner) => inner.label(),
            Error::DuplicateGuid(_) => "DuplicateGuid",
            Error::NoSuchRecord(_) => "NoSuchRecord",
            Error::NonEmptyTable => "NonEmptyTable",
            Error::Interrupted => "Interrupted",
        }
    }

    /// The message of this error.
    pub fn message(&self) -> (r: String)
        ensures
            r@ == error_message(self@),
    {
        match self {
            Error::InvalidLogin(inner) => String::from_str("Invalid login: ").concat(
                inner.message(),
            ),
            Error::DuplicateGuid(g) => String::from_str("A duplicate GUID is present: ").concat(
                g.as_str(),
            ),
            Error::NoSuchRecord(g) => String::from_str(
                "No record with guid exists (when one was required): ",
            ).concat(g.as_str()),
            Error::NonEmptyTable => String::from_str("The logins tables are not empty"),
            Error::Interrupted => String::from_str("The operation was interrupted"),
        }
    }
}

} // verus!
