//! Matching of fields against an entry, and the statements that come of it.
use vstd::prelude::*;
use crate::path::same_simple_name;
use crate::decl::{FieldDecl, FieldType, all_named, ident_text};
use crate::config::ConfigEntry;
use crate::error::FatalError;

verus! {

/// A statement `self.<field> = <func>(self.<field>.clone());`.
pub struct UpdateStmt {
    pub field: String,
    pub func: String,
}

/// A statement as text: the field's identifier and the function's path.
pub type StmtView = (Seq<char>, Seq<char>);

impl View for UpdateStmt {
    type V = StmtView;

    open spec fn view(&self) -> StmtView {
        (self.field@, self.func@)
    }
}

pub open spec fn stmt_views(v: Seq<UpdateStmt>) -> Seq<StmtView> {
    v.map_values(|s: UpdateStmt| s@)
}

/// A field takes part for an entry when its type is a path with the same
/// simple name as the entry's target type.
pub open spec fn field_matches(f: FieldDecl, e: ConfigEntry) -> bool {
    match f.ty {
        FieldType::Path(p) => same_simple_name(p.segs(), e.ty.segs()),
        FieldType::Other => false,
    }
}

/// The statement that an entry makes of a field.
pub open spec fn stmt_of(f: FieldDecl, e: ConfigEntry) -> StmtView {
    (ident_text(f), e.func.text())
}

/// The statements of one entry: one for each matching field, in field order.
pub open spec fn stmts_for(fields: Seq<FieldDecl>, e: ConfigEntry) -> Seq<StmtView>
    decreases fields.len(),
{
    if fields.len() == 0 {
        Seq::empty()
    } else {
        let rest = stmts_for(fields.drop_last(), e);
        if field_matches(fields.last(), e) {
            rest.push(stmt_of(fields.last(), e))
        } else {
            rest
        }
    }
}

/// The statements of all entries, entry by entry.
pub open spec fn all_stmts(fields: Seq<FieldDecl>, es: Seq<ConfigEntry>) -> Seq<StmtView>
    decreases es.len(),
{
    if es.len() == 0 {
        Seq::empty()
    } else {
        all_stmts(fields, es.drop_last()) + stmts_for(fields, es.last())
    }
}

/// The source text of a statement.
pub open spec fn stmt_text(s: StmtView) -> Seq<char> {
    "self."@ + s.0 + " = "@ + s.1 + "(self."@ + s.0 + ".clone());"@
}

impl UpdateStmt {
    /// The statement as source text.
    pub fn render(&self) -> (r: String)
        ensures
            r@ == stmt_text(self@),
    {
        let mut out = String::from_str("self.");
        out.append(self.field.as_str());
        out.append(" = ");
        out.append(self.func.as_str());
        out.append("(self.");
        out.append(self.field.as_str());
        out.append(".clone());");
        out
    }
}

/// Whether the field takes part for the entry.
pub fn field_matches_entry(f: &FieldDecl, e: &ConfigEntry) -> (r: bool)
    ensures
        r == field_matches(*f, *e),
{
    match &f.ty {
        FieldType::Path(p) => p.same_simple_name(&e.ty),
        FieldType::Other => false,
    }
}

/// The statements that one entry makes of the fields, in field order. A field
/// without an identifier is fatal.
pub fn generate_update_func(fields: &Vec<FieldDecl>, model: &ConfigEntry) -> (r: Result<
    Vec<UpdateStmt>,
    FatalError,
>)
    ensures
        match r {
            Ok(v) => all_named(fields@) && stmt_views(v@) == stmts_for(fields@, *model),
            Err(e) => !all_named(fields@) && e == FatalError::UnnamedField,
        },
{
    let func = model.func.render();
    let mut out: Vec<UpdateStmt> = Vec::new();
    let mut i: usize = 0;
    while i < fields.len()
        invariant
            i <= fields@.len(),
            func@ == model.func.text(),
            all_named(fields@.subrange(0, i as int)),
            stmt_views(out@) == stmts_for(fields@.subrange(0, i as int), *model),
        decreases fields@.len() - i,
    {
        let ghost pre = fields@.subrange(0, i as int);
        let ghost cur = fields@.subrange(0, i + 1);
        proof {
            assert(cur.drop_last() =~= pre);
            assert(cur.last() == fields@[i as int]);
        }
        let ident = match &fields[i].ident {
            Some(id) => id.clone(),
            None => {
                proof {
                    assert(fields@[i as int].ident is None);
                }
                return Err(FatalError::UnnamedField);
            },
        };
        if field_matches_entry(&fields[i], model) {
            let ghost before = out@;
            out.push(UpdateStmt { field: ident, func: func.clone() });
            proof {
                assert(out@ =~= before.push(out@.last()));
                assert(stmt_views(out@) =~= stmt_views(before).push(out@.last()@));
            }
        }
        proof {
            assert forall|k: int| 0 <= k < cur.len() implies (#[trigger] cur[k]).ident is Some by {
                if k < i {
                    assert(cur[k] == pre[k]);
                }
            }
        }
        i = i + 1;
    }
    proof {
        assert(fields@.subrange(0, i as int) =~= fields@);
    }
    Ok(out)
}

} // verus!
