//! Access to the fields of nested structs by the path that leads to them.

use vstd::prelude::*;

verus! {

/// A struct whose fields, and those of the structs in them, can each be had
/// by a path, as a value of one type `T`.
pub trait StructDeepGetter<T> {
    /// The paths that lead to a field, each written with a dot between
    /// its steps.
    fn deeper_structs() -> Vec<String>;

    /// The field at the end of a path.
    fn get_path(&self, path: &str) -> T;
}

} // verus!
