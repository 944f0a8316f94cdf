//! Error taxonomy of the trust-policy model.
//!
//! `SchemaError` and the unsupported-version marker are static: they are
//! raised while settings are validated, before any oracle call is made.
//! `OracleError` is dynamic: it reports a failed boundary call and always
//! takes precedence over a partial verdict.
use vstd::prelude::*;

verus! {

/// Mathematical model of a [`SchemaError`].
pub enum SchemaErrorView {
    UnknownField(Seq<char>),
    DuplicateField(Seq<char>),
    MissingField(Seq<char>),
    WrongType(Seq<char>),
    UnknownKind(Seq<char>),
    MalformedSubject,
    InvalidUrlPrefix(Seq<char>),
    NotAnObject,
}

/// A rejected configuration document: the schema names the offending field so
/// that authoring typos fail loudly instead of being silently ignored.
#[derive(Debug, Clone, PartialEq)]
pub enum SchemaError {
    /// A field that the schema does not know, named.
    UnknownField(String),
    /// A field that occurs twice in one object, named.
    DuplicateField(String),
    /// A required field that is absent, named.
    MissingField(String),
    /// A field whose value has the wrong shape, named.
    WrongType(String),
    /// An assertion whose `kind` tag is not one of the known kinds.
    UnknownKind(String),
    /// A subject that carries neither `equal` nor `urlPrefix`, or both.
    MalformedSubject,
    /// A `urlPrefix` subject whose value is not a syntactically valid URL.
    InvalidUrlPrefix(String),
    /// A document node that should be an object but is not.
    NotAnObject,
}

impl View for SchemaError {
    type V = SchemaErrorView;

    open spec fn view(&self) -> SchemaErrorView {
        match self {
            SchemaError::UnknownField(f) => SchemaErrorView::UnknownField(f@),
            SchemaError::DuplicateField(f) => SchemaErrorView::DuplicateField(f@),
            SchemaError::MissingField(f) => SchemaErrorView::MissingField(f@),
            SchemaError::WrongType(f) => SchemaErrorView::WrongType(f@),
            SchemaError::UnknownKind(k) => SchemaErrorView::UnknownKind(k@),
            SchemaError::MalformedSubject => SchemaErrorView::MalformedSubject,
            SchemaError::InvalidUrlPrefix(u) => SchemaErrorView::InvalidUrlPrefix(u@),
            SchemaError::NotAnObject => SchemaErrorView::NotAnObject,
        }
    }
}

/// The text that [`SchemaError::message`] returns for each error.
pub open spec fn schema_error_message(e: SchemaErrorView) -> Seq<char> {
    match e {
        SchemaErrorView::UnknownField(f) => "unknown field `"@ + f + "`"@,
        SchemaErrorView::DuplicateField(f) => "duplicate field `"@ + f + "`"@,
        SchemaErrorView::MissingField(f) => "missing field `"@ + f + "`"@,
        SchemaErrorView::WrongType(f) => "wrong type for field `"@ + f + "`"@,
        SchemaErrorView::UnknownKind(k) => "unknown signature kind `"@ + k + "`"@,
        SchemaErrorView::MalformedSubject => "subject must carry exactly one of `equal` and `urlPrefix`"@,
        SchemaErrorView::InvalidUrlPrefix(u) => "not a valid URL prefix: `"@ + u + "`"@,
        SchemaErrorView::NotAnObject => "expected an object"@,
    }
}

impl SchemaError {
    /// The user-facing description of the error, naming the offending field.
    pub fn message(&self) -> (m: String)
        ensures
            m@ == schema_error_message(self@),
    {
        match self {
            SchemaError::UnknownField(f) => String::from_str("unknown field `").concat(
                f.as_str(),
            ).concat("`"),
            SchemaError::DuplicateField(f) => String::from_str("duplicate field `").concat(
                f.as_str(),
            ).concat("`"),
            SchemaError::MissingField(f) => String::from_str("missing field `").concat(
                f.as_str(),
            ).concat("`"),
            SchemaError::WrongType(f) => String::from_str("wrong type for field `").concat(
                f.as_str(),
            ).concat("`"),
            SchemaError::UnknownKind(k) => String::from_str("unknown signature kind `").concat(
                k.as_str(),
            ).concat("`"),
            SchemaError::MalformedSubject => String::from_str(
                "subject must carry exactly one of `equal` and `urlPrefix`",
            ),
            SchemaError::InvalidUrlPrefix(u) => String::from_str(
                "not a valid URL prefix: `",
            ).concat(u.as_str()).concat("`"),
            SchemaError::NotAnObject => String::from_str("expected an object"),
        }
    }
}

/// Mathematical model of an [`OracleError`].
pub enum OracleErrorView {
    HostFailure(Seq<char>),
    MalformedResponse(Seq<char>),
}

/// A failed oracle call: the boundary call itself went wrong, as opposed to a
/// negative trust verdict.  Never downgraded to "not trusted".
#[derive(Debug, Clone, PartialEq)]
pub enum OracleError {
    /// The host reported an error for the boundary call.
    HostFailure(String),
    /// The host answered, but the answer could not be decoded.
    MalformedResponse(String),
}

impl View for OracleError {
    type V = OracleErrorView;

    open spec fn view(&self) -> OracleErrorView {
        match self {
            OracleError::HostFailure(m) => OracleErrorView::HostFailure(m@),
            OracleError::MalformedResponse(m) => OracleErrorView::MalformedResponse(m@),
        }
    }
}

/// Mathematical model of an [`EvalError`].
pub enum EvalErrorView {
    UnsupportedVersion(Seq<char>),
    Oracle(OracleErrorView),
}

/// Why an evaluation produced no verdict.
#[derive(Debug, Clone, PartialEq)]
pub enum EvalError {
    /// The configuration is a well-formed versioned object, but its version
    /// tag is not one this library understands; evaluation refuses to run.
    UnsupportedVersion(String),
    /// An oracle call failed mid-evaluation; partial progress is discarded.
    Oracle(OracleError),
}

impl View for EvalError {
    type V = EvalErrorView;

    open spec fn view(&self) -> EvalErrorView {
        match self {
            EvalError::UnsupportedVersion(tag) => EvalErrorView::UnsupportedVersion(tag@),
            EvalError::Oracle(e) => EvalErrorView::Oracle(e@),
        }
    }
}

} // verus!
