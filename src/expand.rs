//! The whole expansion: from the declaration and its annotation to the
//! generated method, a diagnostic, or a fatal error.
use vstd::prelude::*;
use crate::decl::{StructDecl, DeclData, FieldDecl, FieldsKind, all_named};
use crate::config::{AttrItem, ConfigEntry, extract_models, extraction};
use crate::synth::{UpdateStmt, StmtView, stmt_views, all_stmts, stmt_text, generate_update_func};
use crate::error::{ConfigError, ExpandError, FatalError};

verus! {

/// The generated method: `impl <target_ident> { <vis> fn update_struct(&mut self) { <body> } }`.
pub struct GeneratedImpl {
    pub target_ident: String,
    pub vis: String,
    pub body: Vec<UpdateStmt>,
}

/// What an expansion comes to.
pub enum Outcome {
    /// The method, by the type's name, the visibility and the statements.
    Method(Seq<char>, Seq<char>, Seq<StmtView>),
    Diagnostic(Seq<ConfigError>),
    Fatal(FatalError),
}

pub open spec fn outcome_of(r: Result<GeneratedImpl, ExpandError>) -> Outcome {
    match r {
        Ok(g) => Outcome::Method(g.target_ident@, g.vis@, stmt_views(g.body@)),
        Err(ExpandError::Diagnostic(v)) => Outcome::Diagnostic(v@),
        Err(ExpandError::Fatal(f)) => Outcome::Fatal(f),
    }
}

/// The outcome for a structure with named fields, given the entries read from
/// its annotation.
pub open spec fn named_outcome(
    decl: StructDecl,
    fields: Seq<FieldDecl>,
    extracted: Result<Seq<ConfigEntry>, Seq<ConfigError>>,
) -> Outcome {
    match extracted {
        Err(es) => Outcome::Diagnostic(es),
        Ok(entries) => if entries.len() == 0 {
            Outcome::Fatal(FatalError::NoModels)
        } else if !all_named(fields) {
            Outcome::Fatal(FatalError::UnnamedField)
        } else {
            Outcome::Method(decl.ident@, decl.vis@, all_stmts(fields, entries))
        },
    }
}

/// The outcome of expanding `decl` with the annotation items `items`. The
/// shape of the declaration is checked first, then the annotation, then the
/// number of entries, then the fields.
pub open spec fn expansion(decl: StructDecl, items: Seq<AttrItem>) -> Outcome {
    match decl.data {
        DeclData::Struct { kind, fields } => if kind == FieldsKind::Named {
            named_outcome(decl, fields@, extraction(items))
        } else {
            Outcome::Fatal(FatalError::NotNamedFields)
        },
        _ => Outcome::Fatal(FatalError::NotAStruct),
    }
}

/// The texts of the statements, each followed by a space.
pub open spec fn body_text(stmts: Seq<StmtView>) -> Seq<char>
    decreases stmts.len(),
{
    if stmts.len() == 0 {
        Seq::empty()
    } else {
        body_text(stmts.drop_last()) + stmt_text(stmts.last()) + " "@
    }
}

/// The visibility followed by a space, or nothing for a private item.
pub open spec fn vis_prefix(vis: Seq<char>) -> Seq<char> {
    if vis.len() == 0 {
        Seq::empty()
    } else {
        vis + " "@
    }
}

/// The source text of the generated method.
pub open spec fn impl_text(name: Seq<char>, vis: Seq<char>, stmts: Seq<StmtView>) -> Seq<char> {
    "impl "@ + name + " { "@ + vis_prefix(vis) + "fn update_struct(&mut self) { "@ + body_text(
        stmts,
    ) + "} }"@
}

proof fn lemma_stmt_views_append(a: Seq<UpdateStmt>, b: Seq<UpdateStmt>)
    ensures
        stmt_views(a + b) == stmt_views(a) + stmt_views(b),
{
    assert(stmt_views(a + b) =~= stmt_views(a) + stmt_views(b));
}

impl GeneratedImpl {
    /// The source text of the method.
    pub fn render(&self) -> (r: String)
        ensures
            r@ == impl_text(self.target_ident@, self.vis@, stmt_views(self.body@)),
    {
        let mut out = String::from_str("impl ");
        out.append(self.target_ident.as_str());
        out.append(" { ");
        if self.vis == String::new() {
            proof {
                assert(self.vis@ =~= Seq::<char>::empty());
            }
        } else {
            proof {
                if self.vis@.len() == 0 {
                    assert(self.vis@ =~= Seq::<char>::empty());
                }
            }
            out.append(self.vis.as_str());
            out.append(" ");
        }
        out.append("fn update_struct(&mut self) { ");
        let ghost head = out@;
        let mut i: usize = 0;
        while i < self.body.len()
            invariant
                i <= self.body@.len(),
                out@ == head + body_text(stmt_views(self.body@.subrange(0, i as int))),
            decreases self.body@.len() - i,
        {
            let s = self.body[i].render();
            out.append(s.as_str());
            out.append(" ");
            proof {
                let v = stmt_views(self.body@.subrange(0, i + 1));
                assert(v.drop_last() =~= stmt_views(self.body@.subrange(0, i as int)));
                assert(v.last() == self.body@[i as int]@);
            }
            i = i + 1;
        }
        proof {
            assert(self.body@.subrange(0, i as int) =~= self.body@);
        }
        out.append("} }");
        proof {
            assert(out@ =~= impl_text(self.target_ident@, self.vis@, stmt_views(self.body@)));
        }
        out
    }
}

/// The statements of all entries, entry by entry, each in field order.
fn generate_all(fields: &Vec<FieldDecl>, entries: &Vec<ConfigEntry>) -> (r: Result<
    Vec<UpdateStmt>,
    FatalError,
>)
    requires
        entries@.len() > 0,
    ensures
        match r {
            Ok(v) => all_named(fields@) && stmt_views(v@) == all_stmts(fields@, entries@),
            Err(e) => !all_named(fields@) && e == FatalError::UnnamedField,
        },
{
    let mut out: Vec<UpdateStmt> = Vec::new();
    let mut j: usize = 0;
    while j < entries.len()
        invariant
            j <= entries@.len(),
            entries@.len() > 0,
            j > 0 ==> all_named(fields@),
            stmt_views(out@) == all_stmts(fields@, entries@.subrange(0, j as int)),
        decreases entries@.len() - j,
    {
        let mut part = generate_update_func(fields, &entries[j])?;
        let ghost out0 = out@;
        let ghost part0 = part@;
        out.append(&mut part);
        proof {
            lemma_stmt_views_append(out0, part0);
            let es = entries@.subrange(0, j + 1);
            assert(es.drop_last() =~= entries@.subrange(0, j as int));
            assert(es.last() == entries@[j as int]);
        }
        j = j + 1;
    }
    proof {
        assert(entries@.subrange(0, j as int) =~= entries@);
    }
    Ok(out)
}

/// Expands a declaration with its annotation items into the update method.
pub fn derive_struct_update_impl(decl: &StructDecl, items: Vec<AttrItem>) -> (r: Result<
    GeneratedImpl,
    ExpandError,
>)
    ensures
        outcome_of(r) == expansion(*decl, items@),
{
    let fields = match &decl.data {
        DeclData::Struct { kind, fields } => {
            if *kind != FieldsKind::Named {
                return Err(ExpandError::Fatal(FatalError::NotNamedFields));
            }
            fields
        },
        _ => {
            return Err(ExpandError::Fatal(FatalError::NotAStruct));
        },
    };
    let models = match extract_models(items) {
        Ok(v) => v,
        Err(e) => {
            return Err(ExpandError::Diagnostic(e));
        },
    };
    if models.len() == 0 {
        return Err(ExpandError::Fatal(FatalError::NoModels));
    }
    let body = match generate_all(fields, &models) {
        Ok(b) => b,
        Err(f) => {
            return Err(ExpandError::Fatal(f));
        },
    };
    Ok(GeneratedImpl { target_ident: decl.ident.clone(), vis: decl.vis.clone(), body })
}

/// The text that an expansion produces: the source of the method, or why
/// there is none.
pub open spec fn text_outcome(o: Outcome, r: Result<String, ExpandError>) -> bool {
    match o {
        Outcome::Method(n, v, s) => r matches Ok(t) && t@ == impl_text(n, v, s),
        Outcome::Diagnostic(es) => r matches Err(ExpandError::Diagnostic(e)) && e@ == es,
        Outcome::Fatal(f) => r matches Err(ExpandError::Fatal(g)) && g == f,
    }
}

/// Expands a declaration with its annotation items into the source text of
/// the update method.
pub fn derive_struct_update(decl: &StructDecl, items: Vec<AttrItem>) -> (r: Result<
    String,
    ExpandError,
>)
    ensures
        text_outcome(expansion(*decl, items@), r),
{
    match derive_struct_update_impl(decl, items) {
        Ok(g) => Ok(g.render()),
        Err(e) => Err(e),
    }
}

} // verus!
