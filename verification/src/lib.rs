//! Error-context annotation: a failure is paired with a text that says
//! where it was observed, and stays reachable as the cause.
//!
//! The message of an annotated failure is one line: the word `sqlx`, a
//! space, and the context. The context is the location of the annotation,
//! followed, where one was given, by the location's separator and a
//! description.

use crate::location::{Location, LocationView};
use vstd::prelude::*;

pub mod decimal;
pub mod laws;
pub mod location;
pub mod scope;

verus! {

/// The failure type of `sqlx_core`, carried through as an opaque value.
#[verifier::external_type_specification]
#[verifier::external_body]
pub struct ExSqlxCoreError(sqlx_core::error::Error);

/// What an `SqlxError` stands for.
pub struct SqlxErrorView<E> {
    /// The failure that was wrapped.
    pub cause: E,
    /// Where, and on what occasion, it was observed.
    pub context: Seq<char>,
}

impl<E> SqlxErrorView<E> {
    /// The message: the prefix, a space and the context.
    pub open spec fn message(self) -> Seq<char> {
        message(self.context)
    }

    /// What caused the failure: the failure that was wrapped, itself.
    pub open spec fn source(&self) -> Option<&E> {
        Some(&self.cause)
    }
}

/// The word that every message starts with.
pub open spec fn prefix() -> Seq<char> {
    seq!['s', 'q', 'l', 'x']
}

/// The message of a failure with the context `context`.
pub open spec fn message(context: Seq<char>) -> Seq<char> {
    prefix() + seq![' '] + context
}

/// The context of an annotation at `location` without a description.
pub open spec fn plain_context(location: LocationView) -> Seq<char> {
    location.text()
}

/// The context of an annotation at `location` with `description`.
pub open spec fn described_context(
    location: LocationView,
    description: Seq<char>,
) -> Seq<char> {
    location.text() + location.separator() + description
}

/// A failure together with the context in which it was observed.
#[derive(Debug)]
pub struct SqlxError<E = sqlx_core::error::Error> {
    cause: E,
    context: String,
}

/// A `Result` whose failure case is an annotated `sqlx_core` error.
pub type SqlxResult<T> = Result<T, SqlxError>;

impl<E> View for SqlxError<E> {
    type V = SqlxErrorView<E>;

    closed spec fn view(&self) -> SqlxErrorView<E> {
        SqlxErrorView { cause: self.cause, context: self.context@ }
    }
}

impl<E> SqlxError<E> {
    #[verifier::type_invariant]
    spec fn has_context(&self) -> bool {
        self.context@.len() > 0
    }

    /// Pairs the failure `err` with the context `msg`.
    pub fn new(err: E, msg: String) -> (wrapped: Self)
        requires
            msg@.len() > 0,
        ensures
            wrapped@ == (SqlxErrorView { cause: err, context: msg@ }),
    {
        SqlxError { cause: err, context: msg }
    }

    /// Annotates the failure `err` with the place where it was observed.
    pub fn annotate(err: E, location: &Location) -> (wrapped: Self)
        requires
            location@.text().len() > 0,
        ensures
            wrapped@ == (SqlxErrorView { cause: err, context: plain_context(location@) }),
    {
        SqlxError { cause: err, context: location.text() }
    }

    /// Annotates the failure `err` with the place where it was observed and
    /// a description of what was being done.
    pub fn annotate_with(err: E, location: &Location, description: &str) -> (wrapped: Self)
        ensures
            wrapped@ == (SqlxErrorView {
                cause: err,
                context: described_context(location@, description@),
            }),
    {
        let separator = location.separator();
        let mut context = location.text();
        context.append(separator);
        context.append(description);
        proof {
            assert(separator@.len() > 0);
        }
        SqlxError { cause: err, context }
    }

    /// The message: one line, the prefix and the context.
    pub fn to_string(&self) -> (text: String)
        ensures
            text@ == self@.message(),
            self@.context.len() > 0,
    {
        proof {
            use_type_invariant(self);
            reveal_strlit("sqlx ");
            assert("sqlx "@ =~= prefix() + seq![' ']);
        }
        let mut text = String::from_str("sqlx ");
        text.append(self.context.as_str());
        text
    }

    /// What caused this failure: the failure that was wrapped.
    pub fn source(&self) -> (cause: Option<&E>)
        ensures
            cause == self@.source(),
    {
        Some(&self.cause)
    }
}

} // verus!
