//! The two ways an expansion can fail.
use vstd::prelude::*;

verus! {

/// A violated structural precondition. The expansion aborts and produces
/// nothing.
#[derive(PartialEq, Eq, Structural, Clone, Copy, Debug)]
pub enum FatalError {
    /// The declaration is an enumeration or a union.
    NotAStruct,
    /// The structure has positional fields or none at all.
    NotNamedFields,
    /// The annotation declares no entry.
    NoModels,
    /// A field has no identifier.
    UnnamedField,
}

} // verus!

verus! {

/// The two keys of an entry.
#[derive(PartialEq, Eq, Structural, Clone, Copy, Debug)]
pub enum EntryKey {
    Ty,
    Func,
}

/// A malformed item of the annotation. `item` is the item's position among the
/// annotation's items, which locates the diagnostic.
pub enum ConfigError {
    /// An item other than `with`.
    UnknownField { item: usize, key: String },
    /// A `with` item that is not a parenthesised list.
    UnexpectedFormat { item: usize },
    /// A key other than `ty` and `func` inside `with(...)`.
    UnknownEntryField { item: usize, key: String },
    /// A key given twice inside one `with(...)`.
    DuplicateField { item: usize, field: EntryKey },
    /// A key whose value is not written `key = <path>`.
    InvalidValue { item: usize, field: EntryKey },
    /// A key missing from a `with(...)`.
    MissingField { item: usize, field: EntryKey },
}

/// Why an expansion produced no method.
pub enum ExpandError {
    /// The annotation is malformed: reported as diagnostics, one per error.
    Diagnostic(Vec<ConfigError>),
    /// A structural precondition failed: the expansion aborts.
    Fatal(FatalError),
}

} // verus!
