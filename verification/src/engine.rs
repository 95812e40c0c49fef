//! How a batch is to be run, decided before any address is looked up.

use vstd::prelude::*;
use crate::database::{GeoDatabase, InMemory, MemoryMapped};
use crate::errors::{ErrorModel, PandasMaxmindError};

verus! {

/// The reader that a caller hands in.
pub enum ReaderHandle<'r> {
    /// A reader that holds its file in memory.
    InMemory(&'r InMemory),
    /// A reader that maps its file.
    MemoryMapped(&'r MemoryMapped),
    /// Anything else; the text names what it is.
    Unsupported(String),
}

/// How a batch is run.
pub enum Strategy<'r> {
    /// Address by address, on the calling thread.
    Sequential(GeoDatabase<'r>),
    /// Chunk by chunk on a pool of threads, the chunks put together in
    /// their order once every thread is done.
    Parallel(&'r InMemory),
}

/// A strategy or the refusal of one, texts as their characters.
pub open spec fn strategy_view(strategy: Result<Strategy<'_>, PandasMaxmindError>) -> Result<
    Strategy<'_>,
    ErrorModel,
> {
    match strategy {
        Ok(s) => Ok(s),
        Err(e) => Err(e@),
    }
}

/// The strategy for a reader and a wish for parallel execution. A reader
/// that holds its file in memory runs either way. A reader that maps its
/// file runs in one pass only. Anything else is refused, with its name.
pub open spec fn strategy_for<'r>(reader: ReaderHandle<'r>, parallel: bool) -> Result<
    Strategy<'r>,
    ErrorModel,
> {
    match reader {
        ReaderHandle::InMemory(database) => if parallel {
            Ok(Strategy::Parallel(database))
        } else {
            Ok(Strategy::Sequential(GeoDatabase::InMemory(database)))
        },
        ReaderHandle::MemoryMapped(database) => if parallel {
            Err(ErrorModel::ParallelMmapReaderError)
        } else {
            Ok(Strategy::Sequential(GeoDatabase::MemoryMapped(database)))
        },
        ReaderHandle::Unsupported(given) => Err(ErrorModel::UnsupportedReaderError(given@)),
    }
}

/// Decides how a batch is run, or refuses it. Nothing is looked up here:
/// a refusal comes before any work on the batch.
pub fn choose_strategy<'r>(reader: ReaderHandle<'r>, parallel: bool) -> (res: Result<
    Strategy<'r>,
    PandasMaxmindError,
>)
    ensures
        strategy_view(res) == strategy_for(reader, parallel),
{
    match reader {
        ReaderHandle::InMemory(database) => if parallel {
            Ok(Strategy::Parallel(database))
        } else {
            Ok(Strategy::Sequential(GeoDatabase::InMemory(database)))
        },
        ReaderHandle::MemoryMapped(database) => if parallel {
            Err(PandasMaxmindError::ParallelMmapReaderError)
        } else {
            Ok(Strategy::Sequential(GeoDatabase::MemoryMapped(database)))
        },
        ReaderHandle::Unsupported(given) => Err(PandasMaxmindError::UnsupportedReaderError(given)),
    }
}

} // verus!
