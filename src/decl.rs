//! The structure declaration that the facility reads.
use vstd::prelude::*;
use crate::path::TypePath;

verus! {

/// The declared type of a field: a path type, or any other form of type
/// (a reference, a tuple, an array, a qualified path, ...).
pub enum FieldType {
    Path(TypePath),
    Other,
}

/// A field: its identifier, absent for a positional field, and its type.
pub struct FieldDecl {
    pub ident: Option<String>,
    pub ty: FieldType,
}

/// How the fields of a structure are written.
#[derive(PartialEq, Eq, Structural, Clone, Copy, Debug)]
pub enum FieldsKind {
    Named,
    Unnamed,
    Unit,
}

/// What the declaration declares.
pub enum DeclData {
    Struct { kind: FieldsKind, fields: Vec<FieldDecl> },
    Enum,
    Union,
}

/// A declaration as the host compiler's parser hands it over: its name, the
/// text of its visibility (empty when private) and its body.
pub struct StructDecl {
    pub ident: String,
    pub vis: String,
    pub data: DeclData,
}

/// Every field of the list has an identifier.
pub open spec fn all_named(fields: Seq<FieldDecl>) -> bool {
    forall|i: int| 0 <= i < fields.len() ==> (#[trigger] fields[i]).ident is Some
}

/// The identifier of a field, as text (empty for a positional field).
pub open spec fn ident_text(f: FieldDecl) -> Seq<char> {
    match f.ident {
        Some(s) => s@,
        None => Seq::empty(),
    }
}

/// No two fields of the list share an identifier, as in any well-formed
/// structure with named fields.
pub open spec fn distinct_idents(fields: Seq<FieldDecl>) -> bool {
    forall|i: int, j: int|
        0 <= i < fields.len() && 0 <= j < fields.len() && i != j ==> ident_text(
            #[trigger] fields[i],
        ) != ident_text(#[trigger] fields[j])
}

} // verus!
