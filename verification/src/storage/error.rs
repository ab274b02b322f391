//! Storage errors, in terms a caller can map to a response without knowing
//! anything about the database.

use vstd::prelude::*;

use crate::text::{
    decimal, decimal_int, decimal_int_text, join, joined, maybe, maybe_str, same_text, texts,
};

verus! {

/// SQLSTATE of a `unique_violation`.
pub const UNIQUE_VIOLATION: &'static str = "23505";

/// SQLSTATE of a `foreign_key_violation`.
pub const FOREIGN_KEY_VIOLATION: &'static str = "23503";

/// SQLSTATE of a `check_violation`.
pub const CHECK_VIOLATION: &'static str = "23514";

/// A database driver's error, carried as it came.
#[verifier::external_type_specification]
#[verifier::external_body]
pub struct ExDatabaseError(sqlx::Error);

/// A JSON error, carried as it came.
#[verifier::external_type_specification]
#[verifier::external_body]
pub struct ExJsonError(serde_json::Error);

/// The SQLSTATE of a driver's error, where the database reported one.
pub uninterp spec fn database_code(error: sqlx::Error) -> Option<Seq<char>>;

/// A driver's error as far as its text depends on nothing but the error itself.
pub ghost enum Failure {
    RowNotFound,
    PoolTimedOut,
    PoolClosed,
    WorkerCrashed,
    InvalidSavePointStatement,
    BeginFailed,
    InvalidArgument(Seq<char>),
    Protocol(Seq<char>),
    ColumnNotFound(Seq<char>),
    /// The index of a column and how many there are.
    OutOfBounds(nat, nat),
    /// An error that names a type.
    TypeNotFound,
    /// An error that holds another one.
    Other,
}

impl Failure {
    /// What the error prints, where its words are fixed but for the values in it.
    pub open spec fn text(self) -> Option<Seq<char>> {
        match self {
            Failure::RowNotFound => Some(
                "no rows returned by a query that expected to return at least one row"@,
            ),
            Failure::PoolTimedOut => Some("pool timed out while waiting for an open connection"@),
            Failure::PoolClosed => Some("attempted to acquire a connection on a closed pool"@),
            Failure::WorkerCrashed => Some(
                "attempted to communicate with a crashed background worker"@,
            ),
            Failure::InvalidSavePointStatement => Some(
                "attempted to call begin_with at non-zero transaction depth"@,
            ),
            Failure::BeginFailed => Some(
                "got unexpected connection status after attempting to begin transaction"@,
            ),
            Failure::InvalidArgument(text) => Some(text),
            Failure::Protocol(text) => Some("encountered unexpected or invalid data: "@ + text),
            Failure::ColumnNotFound(name) => Some("no column found for name: "@ + name),
            Failure::OutOfBounds(index, len) => Some(
                "column index out of bounds: the len is "@ + decimal(len)
                    + ", but the index is "@ + decimal(index),
            ),
            Failure::TypeNotFound => None,
            Failure::Other => None,
        }
    }
}

/// A driver's error with the plain values in it.
#[derive(Debug, PartialEq, Eq)]
pub enum DriverFailure {
    RowNotFound,
    PoolTimedOut,
    PoolClosed,
    WorkerCrashed,
    InvalidSavePointStatement,
    BeginFailed,
    InvalidArgument(String),
    Protocol(String),
    ColumnNotFound(String),
    OutOfBounds(usize, usize),
    TypeNotFound,
    Other,
}

impl View for DriverFailure {
    type V = Failure;

    open spec fn view(&self) -> Failure {
        match self {
            DriverFailure::RowNotFound => Failure::RowNotFound,
            DriverFailure::PoolTimedOut => Failure::PoolTimedOut,
            DriverFailure::PoolClosed => Failure::PoolClosed,
            DriverFailure::WorkerCrashed => Failure::WorkerCrashed,
            DriverFailure::InvalidSavePointStatement => Failure::InvalidSavePointStatement,
            DriverFailure::BeginFailed => Failure::BeginFailed,
            DriverFailure::InvalidArgument(text) => Failure::InvalidArgument(text@),
            DriverFailure::Protocol(text) => Failure::Protocol(text@),
            DriverFailure::TypeNotFound => Failure::TypeNotFound,
            DriverFailure::ColumnNotFound(name) => Failure::ColumnNotFound(name@),
            DriverFailure::OutOfBounds(index, len) => Failure::OutOfBounds(
                *index as nat,
                *len as nat,
            ),
            DriverFailure::Other => Failure::Other,
        }
    }
}

/// Which variant of `sqlx::Error` an error is, with its fields.
pub uninterp spec fn driver_failure(error: sqlx::Error) -> Failure;

/// What an error prints that names a type or that the database reported.
pub uninterp spec fn database_error_text(error: sqlx::Error) -> Seq<char>;

/// Whether a JSON error stands for a failed read or write, as
/// `serde_json::Error::is_io` tells.
pub uninterp spec fn json_error_is_io(error: serde_json::Error) -> bool;

/// What a JSON error prints that does not stand for a failed read or write.
pub uninterp spec fn json_error_text(error: serde_json::Error) -> Seq<char>;

/// Calls `sqlx::Error::as_database_error` and `DatabaseError::code`: the code
/// the database sent with the error, if the error came from the database.
#[verifier::external_body]
fn code_of(error: &sqlx::Error) -> (code: Option<String>)
    ensures
        maybe(code) == database_code(*error),
{
    error.as_database_error().and_then(|e| e.code()).map(|code| code.into_owned())
}

/// Tells the variants of `sqlx::Error` apart and copies the plain values out of
/// them. Those that hold another error are not told apart.
#[verifier::external_body]
fn failure_of(error: &sqlx::Error) -> (failure: DriverFailure)
    ensures
        failure@ == driver_failure(*error),
{
    match error {
        sqlx::Error::RowNotFound => DriverFailure::RowNotFound,
        sqlx::Error::PoolTimedOut => DriverFailure::PoolTimedOut,
        sqlx::Error::PoolClosed => DriverFailure::PoolClosed,
        sqlx::Error::WorkerCrashed => DriverFailure::WorkerCrashed,
        sqlx::Error::InvalidSavePointStatement => DriverFailure::InvalidSavePointStatement,
        sqlx::Error::BeginFailed => DriverFailure::BeginFailed,
        sqlx::Error::InvalidArgument(text) => DriverFailure::InvalidArgument(text.clone()),
        sqlx::Error::Protocol(text) => DriverFailure::Protocol(text.clone()),
        sqlx::Error::TypeNotFound { .. } => DriverFailure::TypeNotFound,
        sqlx::Error::ColumnNotFound(name) => DriverFailure::ColumnNotFound(name.clone()),
        sqlx::Error::ColumnIndexOutOfBounds { index: i, len } => DriverFailure::OutOfBounds(*i, *len),
        _ => DriverFailure::Other,
    }
}

/// Calls `sqlx::Error::to_string`. An error of plain values prints the words of
/// its variant with the values in them. Of one that names a type, and of one with
/// a code, which the database reported, the text depends on the error alone. Any
/// other holds an error that may be the operating system's, whose text is the
/// machine's own and left unsaid.
#[verifier::external_body]
fn print_database_error(error: &sqlx::Error) -> (text: String)
    ensures
        match driver_failure(*error).text() {
            Some(words) => text@ == words,
            None => driver_failure(*error) is TypeNotFound || database_code(*error) is Some
                ==> text@ == database_error_text(*error),
        },
{
    error.to_string()
}

/// Calls `serde_json::Error::is_io`: whether the error stands for a failed read
/// or write.
#[verifier::external_body]
fn json_is_io(error: &serde_json::Error) -> (io: bool)
    ensures
        io == json_error_is_io(*error),
{
    error.is_io()
}

/// Whether a JSON error stands for a failed read or write, so that its text is
/// the operating system's.
pub fn failed_to_read(error: &serde_json::Error) -> (failed: bool)
    ensures
        failed == json_error_is_io(*error),
{
    json_is_io(error)
}

/// Calls `serde_json::Error::to_string`. The text depends on the error alone,
/// unless the error stands for a failed read or write: what the operating system
/// says then is left unsaid.
#[verifier::external_body]
pub(crate) fn print_json_error(error: &serde_json::Error) -> (text: String)
    ensures
        !json_error_is_io(*error) ==> text@ == json_error_text(*error),
{
    error.to_string()
}

#[derive(Debug)]
pub enum StorageError {
    NotFound { entity: &'static str },
    Conflict { entity: &'static str, key: String },
    /// The caller's expected version no longer matches: someone else wrote
    /// first.
    VersionConflict { entity: &'static str, expected: i64 },
    /// A write that violated a CHECK constraint: the database refusing input
    /// that should have been rejected before it.
    Invalid { entity: &'static str },
    /// A delete refused because something still points at the row. The
    /// reference lives inside a rule, where no foreign key reaches.
    InUse { entity: &'static str, key: String, referenced_by: Vec<String> },
    /// A change of state refused because the row is not in the state it starts
    /// from.
    WrongState { entity: &'static str, key: String, actual: &'static str, needed: &'static str },
    /// A row that no longer decodes into the domain model: schema and model
    /// have drifted apart, which is never the user's doing.
    Malformed { entity: &'static str, source: serde_json::Error },
    Database(sqlx::Error),
}

/// What a refused write turned out to be.
#[derive(Debug, Clone, Copy, PartialEq, Eq, Structural)]
pub enum WriteFailure {
    /// The key is taken.
    Duplicate,
    /// Something the row refers to does not exist.
    MissingReference,
    /// A CHECK constraint refused the row.
    Constraint,
    /// Anything else, reported as it came.
    Other,
}

/// What a write refused with this SQLSTATE turned out to be.
pub open spec fn write_failure(code: Option<Seq<char>>) -> WriteFailure {
    if code == Some(UNIQUE_VIOLATION@) {
        WriteFailure::Duplicate
    } else if code == Some(FOREIGN_KEY_VIOLATION@) {
        WriteFailure::MissingReference
    } else if code == Some(CHECK_VIOLATION@) {
        WriteFailure::Constraint
    } else {
        WriteFailure::Other
    }
}

/// What a write refused with this SQLSTATE turned out to be.
pub fn classify_write(code: Option<&str>) -> (failure: WriteFailure)
    ensures
        failure == write_failure(maybe_str(code)),
{
    match code {
        Some(code) => if same_text(code, UNIQUE_VIOLATION) {
            WriteFailure::Duplicate
        } else if same_text(code, FOREIGN_KEY_VIOLATION) {
            WriteFailure::MissingReference
        } else if same_text(code, CHECK_VIOLATION) {
            WriteFailure::Constraint
        } else {
            WriteFailure::Other
        },
        None => WriteFailure::Other,
    }
}

/// The error that a refused write of `key` is reported as.
pub open spec fn reports_write(
    reported: StorageError,
    error: sqlx::Error,
    entity: &'static str,
    key: Seq<char>,
) -> bool {
    match write_failure(database_code(error)) {
        WriteFailure::Duplicate => reported matches StorageError::Conflict { entity: e, key: k }
            && e == entity && k@ == key,
        WriteFailure::MissingReference => reported == (StorageError::NotFound { entity }),
        WriteFailure::Constraint => reported == (StorageError::Invalid { entity }),
        WriteFailure::Other => reported == StorageError::Database(error),
    }
}

impl StorageError {
    /// Nothing there.
    pub fn not_found(entity: &'static str) -> (error: StorageError)
        ensures
            error == (StorageError::NotFound { entity }),
    {
        StorageError::NotFound { entity }
    }

    /// Translates driver-level constraint violations into domain errors.
    ///
    /// Doing this here, rather than checking for existence first, keeps creates
    /// atomic: a concurrent insert of the same key yields a clean conflict
    /// instead of a lost race between looking and inserting.
    pub fn from_write(error: sqlx::Error, entity: &'static str, key: &str) -> (reported:
        StorageError)
        ensures
            reports_write(reported, error, entity, key@),
    {
        let code = code_of(&error);
        let failure = match &code {
            Some(code) => classify_write(Some(code.as_str())),
            None => classify_write(None),
        };
        match failure {
            WriteFailure::Duplicate => StorageError::Conflict { entity, key: key.to_owned() },
            WriteFailure::MissingReference => StorageError::NotFound { entity },
            WriteFailure::Constraint => StorageError::Invalid { entity },
            WriteFailure::Other => StorageError::Database(error),
        }
    }

    /// A row that does not decode.
    pub fn malformed(entity: &'static str, source: serde_json::Error) -> (error: StorageError)
        ensures
            error == (StorageError::Malformed { entity, source }),
    {
        StorageError::Malformed { entity, source }
    }

    /// Whether the error beneath this one, if there is one, prints a text that
    /// depends on nothing but the error: not one of the operating system's.
    pub open spec fn is_settled(self) -> bool {
        match self {
            StorageError::Malformed { source, .. } => !json_error_is_io(source),
            StorageError::Database(error) => driver_failure(error) !is Other || database_code(
                error,
            ) is Some,
            _ => true,
        }
    }

    /// What the error beneath this one prints, where there is one and its text
    /// is settled.
    pub open spec fn beneath(self) -> Seq<char> {
        match self {
            StorageError::Malformed { source, .. } => json_error_text(source),
            StorageError::Database(error) => match driver_failure(error).text() {
                Some(words) => words,
                None => database_error_text(error),
            },
            _ => Seq::empty(),
        }
    }

    /// What the error says to whoever reads it, where the error beneath it, if
    /// there is one, prints `printed`.
    pub open spec fn says(self, printed: Seq<char>) -> Seq<char> {
        match self {
            StorageError::NotFound { entity } => entity@ + " not found"@,
            StorageError::Conflict { entity, key } => entity@ + " `"@ + key@ + "` already exists"@,
            StorageError::VersionConflict { entity, expected } => entity@
                + " was modified by someone else (you were working from version "@ + decimal_int(
                expected as int,
            ) + ")"@,
            StorageError::Invalid { entity } => entity@ + " failed a database constraint"@,
            StorageError::InUse { entity, key, referenced_by } => entity@ + " `"@ + key@
                + "` is still referenced by "@ + joined(texts(referenced_by@), ", "@),
            StorageError::WrongState { entity, key, actual, needed } => entity@ + " `"@ + key@
                + "` is "@ + actual@ + ", and has to be "@ + needed@,
            StorageError::Malformed { entity, .. } => "stored "@ + entity@ + " is malformed: "@
                + printed,
            StorageError::Database(_) => printed,
        }
    }

    /// Whether what the error says depends on nothing but the error: the text of
    /// an error of the operating system is the machine's own.
    pub fn settled(&self) -> (settled: bool)
        ensures
            settled == self.is_settled(),
    {
        match self {
            StorageError::Malformed { source, .. } => !failed_to_read(source),
            StorageError::Database(error) => match failure_of(error) {
                DriverFailure::Other => code_of(error).is_some(),
                _ => true,
            },
            _ => true,
        }
    }

    /// What the error says to whoever reads it. Where the text of the error
    /// beneath is not settled, it is put where a settled one would stand.
    pub fn message(&self) -> (text: String)
        ensures
            self.is_settled() ==> text@ == self.says(self.beneath()),
            exists|printed: Seq<char>| text@ == #[trigger] self.says(printed),
    {
        let printed: String = match self {
            StorageError::Malformed { source, .. } => print_json_error(source),
            StorageError::Database(error) => print_database_error(error),
            _ => String::new(),
        };
        self.message_over(printed.as_str())
    }

    /// What the error says where the error beneath it prints `printed`.
    pub fn message_over(&self, printed: &str) -> (text: String)
        ensures
            text@ == self.says(printed@),
            match self {
                StorageError::NotFound { entity } => text@ == entity@ + " not found"@,
                StorageError::Conflict { entity, key } => text@ == entity@ + " `"@ + key@
                    + "` already exists"@,
                StorageError::VersionConflict { entity, expected } => text@ == entity@
                    + " was modified by someone else (you were working from version "@
                    + decimal_int(*expected as int) + ")"@,
                StorageError::Invalid { entity } => text@ == entity@
                    + " failed a database constraint"@,
                StorageError::InUse { entity, key, referenced_by } => text@ == entity@ + " `"@
                    + key@ + "` is still referenced by "@ + joined(texts(referenced_by@), ", "@),
                StorageError::WrongState { entity, key, actual, needed } => text@ == entity@
                    + " `"@ + key@ + "` is "@ + actual@ + ", and has to be "@ + needed@,
                StorageError::Malformed { entity, .. } => text@ == "stored "@ + entity@
                    + " is malformed: "@ + printed@,
                StorageError::Database(_) => text@ == printed@,
            },
    {
        match self {
            StorageError::NotFound { entity } => (*entity).to_owned().concat(" not found"),
            StorageError::Conflict { entity, key } => (*entity).to_owned().concat(
                " `",
            ).concat(key.as_str()).concat("` already exists"),
            StorageError::VersionConflict { entity, expected } => (*entity).to_owned().concat(
                " was modified by someone else (you were working from version ",
            ).concat(decimal_int_text(*expected).as_str()).concat(")"),
            StorageError::Invalid { entity } => (*entity).to_owned().concat(
                " failed a database constraint",
            ),
            StorageError::InUse { entity, key, referenced_by } => (*entity).to_owned().concat(
                " `",
            ).concat(key.as_str()).concat("` is still referenced by ").concat(
                join(referenced_by, ", ").as_str(),
            ),
            StorageError::WrongState { entity, key, actual, needed } => (*entity).to_owned().concat(
                " `",
            ).concat(key.as_str()).concat("` is ").concat(actual).concat(", and has to be ").concat(
                needed,
            ),
            StorageError::Malformed { entity, .. } => "stored ".to_owned().concat(entity).concat(
                " is malformed: ",
            ).concat(printed),
            StorageError::Database(_) => printed.to_owned(),
        }
    }
}

impl From<sqlx::Error> for StorageError {
    /// A driver's error that no write caused, reported as it came.
    fn from(error: sqlx::Error) -> (reported: StorageError) {
        StorageError::Database(error)
    }
}

impl vstd::std_specs::convert::FromSpecImpl<sqlx::Error> for StorageError {
    open spec fn obeys_from_spec() -> bool {
        true
    }

    open spec fn from_spec(error: sqlx::Error) -> StorageError {
        StorageError::Database(error)
    }
}

/// `Option` to `Result`, for the many statements whose "no rows" is an error.
pub trait FoundExt<T> {
    /// The value, or the error that nothing was found.
    fn or_not_found(self, entity: &'static str) -> Result<T, StorageError>;
}

impl<T> FoundExt<T> for Option<T> {
    fn or_not_found(self, entity: &'static str) -> (found: Result<T, StorageError>)
        ensures
            found == found_or_missing(self, entity),
    {
        match self {
            Some(value) => Ok(value),
            None => Err(StorageError::NotFound { entity }),
        }
    }
}

/// The value, or the error that nothing was found.
pub open spec fn found_or_missing<T>(value: Option<T>, entity: &'static str) -> Result<
    T,
    StorageError,
> {
    match value {
        Some(value) => Ok(value),
        None => Err(StorageError::NotFound { entity }),
    }
}

/// The value that was encoded or decoded, or the error that a stored entity is
/// malformed.
pub open spec fn decoded_or_malformed<T>(
    outcome: Result<T, serde_json::Error>,
    entity: &'static str,
) -> Result<T, StorageError> {
    match outcome {
        Ok(value) => Ok(value),
        Err(source) => Err(StorageError::Malformed { entity, source }),
    }
}

/// The value that was encoded or decoded, or the error that a stored entity is
/// malformed.
pub fn decoded<T>(outcome: Result<T, serde_json::Error>, entity: &'static str) -> (value: Result<
    T,
    StorageError,
>)
    ensures
        value == decoded_or_malformed(outcome, entity),
{
    match outcome {
        Ok(value) => Ok(value),
        Err(source) => Err(StorageError::malformed(entity, source)),
    }
}

/// The row a write returned, or what its refusal means.
pub fn written<T>(outcome: Result<T, sqlx::Error>, entity: &'static str, key: &str) -> (row: Result<
    T,
    StorageError,
>)
    ensures
        match outcome {
            Ok(value) => row == Ok::<T, StorageError>(value),
            Err(error) => row matches Err(reported) && reports_write(reported, error, entity, key@),
        },
{
    match outcome {
        Ok(row) => Ok(row),
        Err(error) => Err(StorageError::from_write(error, entity, key)),
    }
}

/// Success where at least one row changed, and the error that nothing was
/// found where none did.
pub open spec fn affected_or_missing(rows: nat, entity: &'static str) -> Result<(), StorageError> {
    if rows == 0 {
        Err(StorageError::NotFound { entity })
    } else {
        Ok(())
    }
}

/// Success where at least one row changed, and the error that nothing was
/// found where none did.
pub fn affected(rows: u64, entity: &'static str) -> (outcome: Result<(), StorageError>)
    ensures
        outcome == affected_or_missing(rows as nat, entity),
{
    if rows == 0 {
        Err(StorageError::not_found(entity))
    } else {
        Ok(())
    }
}

/// A refused write is told by the code the database sent: a taken key conflicts
/// under that key, a missing reference was not found, a failed check is invalid,
/// and anything else is reported as it came.
pub proof fn a_refused_write_is_told_by_its_code(
    reported: StorageError,
    error: sqlx::Error,
    entity: &'static str,
    key: Seq<char>,
)
    requires
        reports_write(reported, error, entity, key),
    ensures
        database_code(error) == Some("23505"@) ==> (reported matches StorageError::Conflict {
            entity: named,
            key: taken,
        } && named == entity && taken@ == key),
        database_code(error) == Some("23503"@) ==> reported == (StorageError::NotFound { entity }),
        database_code(error) == Some("23514"@) ==> reported == (StorageError::Invalid { entity }),
        database_code(error) is None || (database_code(error)->0 != "23505"@ && database_code(
            error,
        )->0 != "23503"@ && database_code(error)->0 != "23514"@) ==> reported
            == StorageError::Database(error),
{
    reveal_strlit("23505");
    reveal_strlit("23503");
    reveal_strlit("23514");
    assert("23505"@[3] == '0' && "23503"@[3] == '0' && "23514"@[3] == '1');
    assert("23505"@[4] == '5' && "23503"@[4] == '3');
}

/// Nothing is invented and nothing is lost: what is there comes back, and what is
/// not is an error that names the entity. A write that touched no row found
/// nothing.
pub proof fn what_is_there_comes_back<T>(
    value: Option<T>,
    outcome: Result<T, serde_json::Error>,
    rows: nat,
    entity: &'static str,
)
    ensures
        value matches Some(there) ==> found_or_missing(value, entity) == Ok::<T, StorageError>(
            there,
        ),
        value is None ==> found_or_missing(value, entity) == Err::<T, StorageError>(
            StorageError::NotFound { entity },
        ),
        outcome matches Ok(read) ==> decoded_or_malformed(outcome, entity) == Ok::<
            T,
            StorageError,
        >(read),
        outcome matches Err(source) ==> decoded_or_malformed(outcome, entity) == Err::<
            T,
            StorageError,
        >(StorageError::Malformed { entity, source }),
        rows > 0 ==> affected_or_missing(rows, entity) == Ok::<(), StorageError>(()),
        rows == 0 ==> affected_or_missing(rows, entity) == Err::<(), StorageError>(
            StorageError::NotFound { entity },
        ),
{
}

/// A driver's error of plain values is reported in its own words, with the values
/// in them.
pub proof fn a_driver_error_is_reported_in_its_own_words(error: sqlx::Error)
    ensures
        StorageError::Database(error).says(StorageError::Database(error).beneath()) == (
        match driver_failure(error) {
            Failure::RowNotFound =>
                "no rows returned by a query that expected to return at least one row"@,
            Failure::PoolTimedOut => "pool timed out while waiting for an open connection"@,
            Failure::PoolClosed => "attempted to acquire a connection on a closed pool"@,
            Failure::WorkerCrashed =>
                "attempted to communicate with a crashed background worker"@,
            Failure::InvalidSavePointStatement =>
                "attempted to call begin_with at non-zero transaction depth"@,
            Failure::BeginFailed =>
                "got unexpected connection status after attempting to begin transaction"@,
            Failure::InvalidArgument(text) => text,
            Failure::Protocol(text) => "encountered unexpected or invalid data: "@ + text,
            Failure::ColumnNotFound(name) => "no column found for name: "@ + name,
            Failure::OutOfBounds(index, len) => "column index out of bounds: the len is "@
                + decimal(len) + ", but the index is "@ + decimal(index),
            Failure::TypeNotFound => database_error_text(error),
            Failure::Other => database_error_text(error),
        }),
        StorageError::Database(error).is_settled() <==> !(driver_failure(error) is Other)
            || database_code(error) is Some,
{
}

/// What a malformed row reports is the decoder's own text behind the name of the
/// entity, and is settled unless reading failed.
pub proof fn a_malformed_row_is_reported_with_its_reason(error: StorageError)
    requires
        error is Malformed,
    ensures
        error.is_settled() <==> !json_error_is_io(error->source),
        error.says(error.beneath()) == "stored "@ + error->Malformed_entity@ + " is malformed: "@
            + json_error_text(error->source),
{
}

} // verus!
