use pandas_maxminddb::errors::{ExceptionKind, PandasMaxmindError};

#[test]
fn a_fault_of_the_database_speaks_for_itself() {
    let e = PandasMaxmindError::MaxMindDBError("InvalidDatabaseError: the tree is corrupt".to_string());
    assert_eq!(e.message(), "InvalidDatabaseError: the tree is corrupt");
    assert_eq!(e.exception_kind(), ExceptionKind::Runtime);
}

#[test]
fn an_unknown_column_is_named() {
    let e = PandasMaxmindError::ParseColumnError("continent".to_string());
    assert_eq!(e.message(), "invalid geo column name: continent");
    assert_eq!(e.exception_kind(), ExceptionKind::Key);
    assert_eq!(PandasMaxmindError::ParseColumnError(String::new()).message(), "invalid geo column name: ");
}

#[test]
fn an_unsupported_reader_is_named() {
    let e = PandasMaxmindError::UnsupportedReaderError("NoneType".to_string());
    assert_eq!(e.message(), "unsupported reader class, got: NoneType, expected ReaderMem or ReaderMmap");
    assert_eq!(e.exception_kind(), ExceptionKind::Type);
}

#[test]
fn parallel_on_a_mapped_reader_says_so() {
    let e = PandasMaxmindError::ParallelMmapReaderError;
    assert_eq!(e.message(), "mmap is not supported for parallel processing");
    assert_eq!(e.exception_kind(), ExceptionKind::Runtime);
}
