//! What can go wrong with a batch.

use vstd::prelude::*;
use vstd::string::StringExecFns;

verus! {

/// The ways a batch can fail. A batch that fails returns one of these and no
/// data.
#[derive(Debug, PartialEq, Eq)]
pub enum PandasMaxmindError {
    /// The database reported a fault while an address was looked up; the
    /// text is the database's own report.
    MaxMindDBError(String),
    /// A column was requested under a name that is none of the known ones.
    ParseColumnError(String),
    /// The reader handed in is neither of the two supported kinds; the text
    /// says what was handed in.
    UnsupportedReaderError(String),
    /// Parallel execution was asked for on a memory-mapped reader.
    ParallelMmapReaderError,
}

/// A failure, texts as their characters.
pub enum ErrorModel {
    MaxMindDBError(Seq<char>),
    ParseColumnError(Seq<char>),
    UnsupportedReaderError(Seq<char>),
    ParallelMmapReaderError,
}

impl View for PandasMaxmindError {
    type V = ErrorModel;

    open spec fn view(&self) -> ErrorModel {
        match *self {
            PandasMaxmindError::MaxMindDBError(report) => ErrorModel::MaxMindDBError(report@),
            PandasMaxmindError::ParseColumnError(name) => ErrorModel::ParseColumnError(name@),
            PandasMaxmindError::UnsupportedReaderError(given) => ErrorModel::UnsupportedReaderError(
                given@,
            ),
            PandasMaxmindError::ParallelMmapReaderError => ErrorModel::ParallelMmapReaderError,
        }
    }
}

/// The kind of exception that a failure is raised as in the caller's
/// runtime.
#[derive(Debug, PartialEq, Eq, Structural, Clone, Copy)]
pub enum ExceptionKind {
    Runtime,
    Type,
    Key,
}

impl ErrorModel {
    /// What the failure says of itself.
    pub open spec fn message(self) -> Seq<char> {
        match self {
            ErrorModel::MaxMindDBError(report) => report,
            ErrorModel::ParseColumnError(name) => "invalid geo column name: "@ + name,
            ErrorModel::UnsupportedReaderError(given) => "unsupported reader class, got: "@ + given
                + ", expected ReaderMem or ReaderMmap"@,
            ErrorModel::ParallelMmapReaderError => "mmap is not supported for parallel processing"@,
        }
    }

    /// The kind of exception that the failure is raised as.
    pub open spec fn exception_kind(self) -> ExceptionKind {
        match self {
            ErrorModel::MaxMindDBError(_) => ExceptionKind::Runtime,
            ErrorModel::ParseColumnError(_) => ExceptionKind::Key,
            ErrorModel::UnsupportedReaderError(_) => ExceptionKind::Type,
            ErrorModel::ParallelMmapReaderError => ExceptionKind::Runtime,
        }
    }
}

impl PandasMaxmindError {
    /// What the failure says of itself. A fault of the database speaks for
    /// itself.
    pub fn message(&self) -> (res: String)
        ensures
            res@ == self@.message(),
    {
        match self {
            PandasMaxmindError::MaxMindDBError(report) => report.clone(),
            PandasMaxmindError::ParseColumnError(name) => {
                let mut text = "invalid geo column name: ".to_owned();
                text.append(name.as_str());
                text
            },
            PandasMaxmindError::UnsupportedReaderError(given) => {
                let mut text = "unsupported reader class, got: ".to_owned();
                text.append(given.as_str());
                text.append(", expected ReaderMem or ReaderMmap");
                text
            },
            PandasMaxmindError::ParallelMmapReaderError => {
                "mmap is not supported for parallel processing".to_owned()
            },
        }
    }

    /// The kind of exception that the failure is raised as.
    pub fn exception_kind(&self) -> (res: ExceptionKind)
        ensures
            res == self@.exception_kind(),
    {
        match self {
            PandasMaxmindError::MaxMindDBError(_) => ExceptionKind::Runtime,
            PandasMaxmindError::ParseColumnError(_) => ExceptionKind::Key,
            PandasMaxmindError::UnsupportedReaderError(_) => ExceptionKind::Type,
            PandasMaxmindError::ParallelMmapReaderError => ExceptionKind::Runtime,
        }
    }
}

} // verus!
