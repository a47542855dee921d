//! Error taxonomy of the service.
//!
//! Storage-level failures are translated exactly once, at the repository
//! boundary, into a structured status; raw driver details never cross it.

use vstd::prelude::*;

verus! {

/// Status codes surfaced to callers of the service.
#[derive(Clone, Copy, Debug, PartialEq, Eq, Structural)]
pub enum Code {
    InvalidArgument,
    NotFound,
    AlreadyExists,
    FailedPrecondition,
    ResourceExhausted,
    Unauthenticated,
    Internal,
}

/// A structured status: a code plus a short, safe message.
#[derive(Clone, Debug)]
pub struct Status {
    pub code: Code,
    pub message: String,
}

impl Status {
    pub fn invalid_argument(message: &str) -> (r: Status)
        ensures
            r.code == Code::InvalidArgument,
            r.message@ == message@,
    {
        Status { code: Code::InvalidArgument, message: message.to_owned() }
    }

    pub fn not_found(message: &str) -> (r: Status)
        ensures
            r.code == Code::NotFound,
            r.message@ == message@,
    {
        Status { code: Code::NotFound, message: message.to_owned() }
    }

    pub fn already_exists(message: &str) -> (r: Status)
        ensures
            r.code == Code::AlreadyExists,
            r.message@ == message@,
    {
        Status { code: Code::AlreadyExists, message: message.to_owned() }
    }

    pub fn failed_precondition(message: &str) -> (r: Status)
        ensures
            r.code == Code::FailedPrecondition,
            r.message@ == message@,
    {
        Status { code: Code::FailedPrecondition, message: message.to_owned() }
    }

    pub fn resource_exhausted(message: &str) -> (r: Status)
        ensures
            r.code == Code::ResourceExhausted,
            r.message@ == message@,
    {
        Status { code: Code::ResourceExhausted, message: message.to_owned() }
    }

    pub fn unauthenticated(message: &str) -> (r: Status)
        ensures
            r.code == Code::Unauthenticated,
            r.message@ == message@,
    {
        Status { code: Code::Unauthenticated, message: message.to_owned() }
    }

    pub fn internal(message: &str) -> (r: Status)
        ensures
            r.code == Code::Internal,
            r.message@ == message@,
    {
        Status { code: Code::Internal, message: message.to_owned() }
    }
}

/// The condition classes a relational driver can report, reduced to plain
/// data.  The process embedding this crate maps the driver's SQL-state code
/// to one of these before handing the failure in.
#[derive(Clone, Copy, Debug, PartialEq, Eq, Structural)]
pub enum SqlState {
    UniqueViolation,
    ForeignKeyViolation,
    SyntaxError,
    Other,
}

/// A storage-layer failure.
#[derive(Clone, Debug)]
pub enum DbError {
    /// The engine rejected a statement; carries the condition class and the
    /// engine's message.
    Database(SqlState, String),
    /// No row matched an update or delete that was required to match one.
    NotFound,
    /// A connection could not be obtained from the pool.
    Pool(String),
    /// A statement was built from an invalid argument.
    Argument(String),
}

/// The status that a given storage-layer failure is translated to:
/// unique-constraint violations surface as `AlreadyExists`, foreign-key
/// violations as `FailedPrecondition`, missing rows as `NotFound`, and
/// everything else as `Internal` with the driver detail withheld.
pub open spec fn status_code_of_db_error(err: DbError) -> Code {
    match err {
        DbError::Database(SqlState::UniqueViolation, _) => Code::AlreadyExists,
        DbError::Database(SqlState::ForeignKeyViolation, _) => Code::FailedPrecondition,
        DbError::Database(SqlState::SyntaxError, _) => Code::Internal,
        DbError::Database(SqlState::Other, _) => Code::Internal,
        DbError::NotFound => Code::NotFound,
        DbError::Pool(_) => Code::Internal,
        DbError::Argument(_) => Code::InvalidArgument,
    }
}

/// The message a given storage-layer failure keeps when translated:
/// constraint violations keep the engine's message (it names the constraint,
/// nothing sensitive); every other driver detail is withheld.
pub open spec fn status_message_of_db_error(err: DbError) -> Seq<char> {
    match err {
        DbError::Database(SqlState::UniqueViolation, message) => message@,
        DbError::Database(SqlState::ForeignKeyViolation, message) => message@,
        DbError::Argument(message) => message@,
        _ => Seq::<char>::empty(),
    }
}

impl Status {
    /// Translate a storage failure into the caller-visible taxonomy.  This is
    /// the single point where driver-level errors become statuses.
    pub fn from_db_error(err: DbError) -> (r: Status)
        ensures
            r.code == status_code_of_db_error(err),
            r.message@ == status_message_of_db_error(err),
    {
        match err {
            DbError::Database(SqlState::UniqueViolation, message) => {
                Status { code: Code::AlreadyExists, message }
            },
            DbError::Database(SqlState::ForeignKeyViolation, message) => {
                Status { code: Code::FailedPrecondition, message }
            },
            DbError::Database(SqlState::SyntaxError, _) => {
                Status { code: Code::Internal, message: String::new() }
            },
            DbError::Database(SqlState::Other, _) => {
                Status { code: Code::Internal, message: String::new() }
            },
            DbError::NotFound => Status { code: Code::NotFound, message: String::new() },
            DbError::Pool(_) => Status { code: Code::Internal, message: String::new() },
            DbError::Argument(message) => Status { code: Code::InvalidArgument, message },
        }
    }
}

} // verus!
