//! The classified failures of the access layer.

use vstd::prelude::*;
use vstd::string::*;
use crate::text::{join_texts, joined, texts};

verus! {

/// A failure of one operation of the access layer.
#[derive(Debug)]
pub enum TccError {
    /// A store could not be opened.
    DbOpen { path: String, source: String },
    /// A write addressed a (service, client) pair that has no row.
    NotFound { service: String, client: String },
    /// The write needs elevated privilege, which the caller lacks.
    NeedsRoot { message: String },
    /// The input names no service.
    UnknownService(String),
    /// The input is part of several display names.
    AmbiguousService { input: String, matches: Vec<String> },
    /// A row scan failed.
    QueryFailed(String),
    /// The table definition of the target store cannot be read.
    SchemaInvalid(String),
    /// The per-user store cannot be located.
    HomeDirNotFound,
    /// An insert, update or delete failed.
    WriteFailed(String),
}

/// The mathematical content of a [`TccError`].
pub enum ErrorModel {
    DbOpen { path: Seq<char>, source: Seq<char> },
    NotFound { service: Seq<char>, client: Seq<char> },
    NeedsRoot { message: Seq<char> },
    UnknownService(Seq<char>),
    AmbiguousService { input: Seq<char>, matches: Seq<Seq<char>> },
    QueryFailed(Seq<char>),
    SchemaInvalid(Seq<char>),
    HomeDirNotFound,
    WriteFailed(Seq<char>),
}

impl View for TccError {
    type V = ErrorModel;

    open spec fn view(&self) -> ErrorModel {
        match self {
            TccError::DbOpen { path, source } => ErrorModel::DbOpen {
                path: path@,
                source: source@,
            },
            TccError::NotFound { service, client } => ErrorModel::NotFound {
                service: service@,
                client: client@,
            },
            TccError::NeedsRoot { message } => ErrorModel::NeedsRoot { message: message@ },
            TccError::UnknownService(s) => ErrorModel::UnknownService(s@),
            TccError::AmbiguousService { input, matches } => ErrorModel::AmbiguousService {
                input: input@,
                matches: texts(matches@),
            },
            TccError::QueryFailed(s) => ErrorModel::QueryFailed(s@),
            TccError::SchemaInvalid(s) => ErrorModel::SchemaInvalid(s@),
            TccError::HomeDirNotFound => ErrorModel::HomeDirNotFound,
            TccError::WriteFailed(s) => ErrorModel::WriteFailed(s@),
        }
    }
}

/// The text that describes a failure to an operator.
pub open spec fn message_of(e: ErrorModel) -> Seq<char> {
    match e {
        ErrorModel::DbOpen { path, source } => "Failed to open "@ + path + ": "@ + source,
        ErrorModel::NotFound { service, client } => "No entry found for service '"@ + service
            + "' and client '"@ + client + "'"@,
        ErrorModel::NeedsRoot { message } => message,
        ErrorModel::UnknownService(s) => "Unknown service '"@ + s
            + "'. Run `tcc services` to see available services."@,
        ErrorModel::AmbiguousService { input, matches } => "Ambiguous service '"@ + input
            + "'. Matches: "@ + joined(matches, ", "@),
        ErrorModel::QueryFailed(s) => s,
        ErrorModel::SchemaInvalid(s) => s,
        ErrorModel::HomeDirNotFound => "Cannot determine home directory"@,
        ErrorModel::WriteFailed(s) => s,
    }
}

/// The stable tag of a failure's kind.
pub open spec fn kind_of(e: ErrorModel) -> Seq<char> {
    match e {
        ErrorModel::DbOpen { .. } => "DbOpen"@,
        ErrorModel::NotFound { .. } => "NotFound"@,
        ErrorModel::NeedsRoot { .. } => "NeedsRoot"@,
        ErrorModel::UnknownService(_) => "UnknownService"@,
        ErrorModel::AmbiguousService { .. } => "AmbiguousService"@,
        ErrorModel::QueryFailed(_) => "QueryFailed"@,
        ErrorModel::SchemaInvalid(_) => "SchemaInvalid"@,
        ErrorModel::HomeDirNotFound => "HomeDirNotFound"@,
        ErrorModel::WriteFailed(_) => "WriteFailed"@,
    }
}

impl TccError {
    /// The text that describes this failure to an operator.
    pub fn message(&self) -> (r: String)
        ensures
            r@ == message_of(self@),
    {
        match self {
            TccError::DbOpen { path, source } => {
                let mut out = String::from_str("Failed to open ");
                out.append(path.as_str());
                out.append(": ");
                out.append(source.as_str());
                out
            },
            TccError::NotFound { service, client } => {
                let mut out = String::from_str("No entry found for service '");
                out.append(service.as_str());
                out.append("' and client '");
                out.append(client.as_str());
                out.append("'");
                out
            },
            TccError::NeedsRoot { message } => message.clone(),
            TccError::UnknownService(s) => {
                let mut out = String::from_str("Unknown service '");
                out.append(s.as_str());
                out.append("'. Run `tcc services` to see available services.");
                out
            },
            TccError::AmbiguousService { input, matches } => {
                let mut out = String::from_str("Ambiguous service '");
                out.append(input.as_str());
                out.append("'. Matches: ");
                let listed = join_texts(matches, ", ");
                out.append(listed.as_str());
                out
            },
            TccError::QueryFailed(s) => s.clone(),
            TccError::SchemaInvalid(s) => s.clone(),
            TccError::HomeDirNotFound => String::from_str("Cannot determine home directory"),
            TccError::WriteFailed(s) => s.clone(),
        }
    }

    /// The stable tag of this failure's kind.
    pub fn kind(&self) -> (r: &'static str)
        ensures
            r@ == kind_of(self@),
    {
        match self {
            TccError::DbOpen { .. } => "DbOpen",
            TccError::NotFound { .. } => "NotFound",
            TccError::NeedsRoot { .. } => "NeedsRoot",
            TccError::UnknownService(_) => "UnknownService",
            TccError::AmbiguousService { .. } => "AmbiguousService",
            TccError::QueryFailed(_) => "QueryFailed",
            TccError::SchemaInvalid(_) => "SchemaInvalid",
            TccError::HomeDirNotFound => "HomeDirNotFound",
            TccError::WriteFailed(_) => "WriteFailed",
        }
    }
}

} // verus!
