//! Properties of the generated statements, proved over the specifications of
//! `synth` and `expand`.
use vstd::prelude::*;
use crate::path::is_bare;
use crate::decl::{StructDecl, DeclData, FieldDecl, FieldType, distinct_idents, ident_text};
use crate::config::{AttrItem, ConfigEntry, extraction};
use crate::synth::{StmtView, field_matches, stmt_of, stmts_for, all_stmts};
use crate::expand::{Outcome, expansion, text_outcome};
use crate::error::ExpandError;

verus! {

/// The number of fields that match the entry.
pub open spec fn matching_fields(fields: Seq<FieldDecl>, e: ConfigEntry) -> nat
    decreases fields.len(),
{
    if fields.len() == 0 {
        0
    } else {
        matching_fields(fields.drop_last(), e) + if field_matches(fields.last(), e) {
            1nat
        } else {
            0nat
        }
    }
}

/// The number of (field, entry) pairs whose simple names agree.
pub open spec fn matching_pairs(fields: Seq<FieldDecl>, es: Seq<ConfigEntry>) -> nat
    decreases es.len(),
{
    if es.len() == 0 {
        0
    } else {
        matching_pairs(fields, es.drop_last()) + matching_fields(fields, es.last())
    }
}

proof fn lemma_stmts_for_len(fields: Seq<FieldDecl>, e: ConfigEntry)
    ensures
        stmts_for(fields, e).len() == matching_fields(fields, e),
    decreases fields.len(),
{
    if fields.len() > 0 {
        lemma_stmts_for_len(fields.drop_last(), e);
    }
}

/// One statement is emitted for each (field, entry) pair whose simple names
/// agree, and no other.
pub proof fn lemma_statement_count(fields: Seq<FieldDecl>, es: Seq<ConfigEntry>)
    ensures
        all_stmts(fields, es).len() == matching_pairs(fields, es),
    decreases es.len(),
{
    if es.len() > 0 {
        lemma_statement_count(fields, es.drop_last());
        lemma_stmts_for_len(fields, es.last());
    }
}

/// When an expansion produces the method, its body holds one statement for
/// each (field, entry) pair whose simple names agree.
pub proof fn lemma_method_statement_count(decl: StructDecl, items: Seq<AttrItem>)
    requires
        expansion(decl, items) is Method,
    ensures
        match (decl.data, extraction(items), expansion(decl, items)) {
            (DeclData::Struct { fields, .. }, Ok(entries), Outcome::Method(_, _, stmts)) => stmts.len()
                == matching_pairs(fields@, entries),
            _ => false,
        },
{
    match (decl.data, extraction(items)) {
        (DeclData::Struct { fields, .. }, Ok(entries)) => {
            lemma_statement_count(fields@, entries);
        },
        _ => {},
    }
}

/// Every statement of an entry comes from a field that matches it: the
/// index of that field.
proof fn lemma_stmt_origin(fields: Seq<FieldDecl>, e: ConfigEntry, p: int) -> (i: int)
    requires
        0 <= p < stmts_for(fields, e).len(),
    ensures
        0 <= i < fields.len(),
        field_matches(fields[i], e),
        stmts_for(fields, e)[p] == stmt_of(fields[i], e),
    decreases fields.len(),
{
    let init = fields.drop_last();
    let n = fields.len() - 1;
    assert(fields[n] == fields.last());
    if p < stmts_for(init, e).len() {
        let i = lemma_stmt_origin(init, e, p);
        assert(fields[i] == init[i]);
        assert(stmts_for(fields, e)[p] == stmts_for(init, e)[p]);
        i
    } else {
        n
    }
}

/// The statement of a matching field stands after those of the matching
/// fields declared before it.
proof fn lemma_stmt_position(fields: Seq<FieldDecl>, e: ConfigEntry, k: int)
    requires
        0 <= k < fields.len(),
        field_matches(fields[k], e),
    ensures
        matching_fields(fields.take(k), e) < stmts_for(fields, e).len(),
        stmts_for(fields, e)[matching_fields(fields.take(k), e) as int] == stmt_of(fields[k], e),
    decreases fields.len(),
{
    let init = fields.drop_last();
    let n = fields.len() - 1;
    assert(fields[n] == fields.last());
    if k < n {
        assert(init.take(k) =~= fields.take(k));
        assert(init[k] == fields[k]);
        lemma_stmt_position(init, e, k);
    } else {
        assert(fields.take(k) =~= init);
        lemma_stmts_for_len(init, e);
    }
}

proof fn lemma_matching_fields_grow(fields: Seq<FieldDecl>, e: ConfigEntry, i: int, j: int)
    requires
        0 <= i < j <= fields.len(),
        field_matches(fields[i], e),
    ensures
        matching_fields(fields.take(i), e) < matching_fields(fields.take(j), e),
    decreases j - i,
{
    let t = fields.take(j);
    assert(t.drop_last() =~= fields.take(j - 1));
    assert(t.last() == fields[j - 1]);
    if j > i + 1 {
        lemma_matching_fields_grow(fields, e, i, j - 1);
    }
}

/// Within one entry, the statements follow the order in which the fields are
/// declared.
pub proof fn lemma_field_order(fields: Seq<FieldDecl>, e: ConfigEntry, i: int, j: int)
    requires
        0 <= i < j < fields.len(),
        field_matches(fields[i], e),
        field_matches(fields[j], e),
    ensures
        exists|p: int, q: int|
            0 <= p < q < stmts_for(fields, e).len() && stmts_for(fields, e)[p] == stmt_of(
                fields[i],
                e,
            ) && stmts_for(fields, e)[q] == stmt_of(fields[j], e),
{
    lemma_stmt_position(fields, e, i);
    lemma_stmt_position(fields, e, j);
    lemma_matching_fields_grow(fields, e, i, j);
    let p = matching_fields(fields.take(i), e) as int;
    let q = matching_fields(fields.take(j), e) as int;
    assert(stmts_for(fields, e)[p] == stmt_of(fields[i], e));
}

/// A field that matches two entries is updated twice: first by the earlier
/// entry's function, then by the later one's.
pub proof fn lemma_double_match(fields: Seq<FieldDecl>, e1: ConfigEntry, e2: ConfigEntry, k: int)
    requires
        0 <= k < fields.len(),
        field_matches(fields[k], e1),
        field_matches(fields[k], e2),
    ensures
        exists|p: int, q: int|
            0 <= p < q < all_stmts(fields, seq![e1, e2]).len() && all_stmts(fields, seq![e1, e2])[p]
                == stmt_of(fields[k], e1) && all_stmts(fields, seq![e1, e2])[q] == stmt_of(
                fields[k],
                e2,
            ),
{
    let es = seq![e1, e2];
    assert(es.drop_last() =~= seq![e1]);
    assert(seq![e1].drop_last() =~= Seq::<ConfigEntry>::empty());
    let s1 = stmts_for(fields, e1);
    let s2 = stmts_for(fields, e2);
    assert(seq![e1].last() == e1);
    assert(all_stmts(fields, Seq::<ConfigEntry>::empty()) == Seq::<StmtView>::empty());
    assert(all_stmts(fields, seq![e1]) =~= s1);
    assert(all_stmts(fields, es) == s1 + s2);
    lemma_stmt_position(fields, e1, k);
    lemma_stmt_position(fields, e2, k);
    let p = matching_fields(fields.take(k), e1) as int;
    let q = matching_fields(fields.take(k), e2) as int;
    assert((s1 + s2)[p] == s1[p]);
    assert((s1 + s2)[s1.len() + q] == s2[q]);
}

/// A field whose type is not a bare path takes part in no statement, whatever
/// the entries.
pub proof fn lemma_non_bare_field_untouched(fields: Seq<FieldDecl>, es: Seq<ConfigEntry>, k: int)
    requires
        distinct_idents(fields),
        0 <= k < fields.len(),
        match fields[k].ty {
            FieldType::Path(p) => !is_bare(p.segs()),
            FieldType::Other => true,
        },
    ensures
        forall|p: int|
            0 <= p < all_stmts(fields, es).len() ==> (#[trigger] all_stmts(fields, es)[p]).0
                != ident_text(fields[k]),
    decreases es.len(),
{
    if es.len() > 0 {
        let init = es.drop_last();
        let e = es.last();
        lemma_non_bare_field_untouched(fields, init, k);
        let a = all_stmts(fields, init);
        let s = stmts_for(fields, e);
        assert forall|p: int| 0 <= p < all_stmts(fields, es).len() implies (#[trigger] all_stmts(
            fields,
            es,
        )[p]).0 != ident_text(fields[k]) by {
            if p < a.len() {
                assert(all_stmts(fields, es)[p] == a[p]);
            } else {
                assert(all_stmts(fields, es)[p] == s[p - a.len()]);
                let i = lemma_stmt_origin(fields, e, p - a.len());
                assert(i != k);
            }
        }
    }
}

/// The values of the fields after the statements run, from their values
/// before: `self.f = g(self.f.clone());` sets `f` to `call(g, <value of f>)`.
pub open spec fn run<A>(
    stmts: Seq<StmtView>,
    st: Map<Seq<char>, A>,
    call: spec_fn(Seq<char>, A) -> A,
) -> Map<Seq<char>, A>
    decreases stmts.len(),
{
    if stmts.len() == 0 {
        st
    } else {
        let before = run(stmts.drop_last(), st, call);
        let s = stmts.last();
        before.insert(s.0, call(s.1, before[s.0]))
    }
}

proof fn lemma_run_keeps_domain<A>(
    stmts: Seq<StmtView>,
    st: Map<Seq<char>, A>,
    call: spec_fn(Seq<char>, A) -> A,
    x: Seq<char>,
)
    requires
        st.dom().contains(x),
    ensures
        run(stmts, st, call).dom().contains(x),
    decreases stmts.len(),
{
    if stmts.len() > 0 {
        lemma_run_keeps_domain(stmts.drop_last(), st, call, x);
    }
}

proof fn lemma_run_append<A>(
    a: Seq<StmtView>,
    b: Seq<StmtView>,
    st: Map<Seq<char>, A>,
    call: spec_fn(Seq<char>, A) -> A,
)
    ensures
        run(a + b, st, call) == run(b, run(a, st, call), call),
    decreases b.len(),
{
    if b.len() == 0 {
        assert(a + b =~= a);
    } else {
        assert((a + b).drop_last() =~= a + b.drop_last());
        assert((a + b).last() == b.last());
        lemma_run_append(a, b.drop_last(), st, call);
    }
}

proof fn lemma_run_untouched<A>(
    stmts: Seq<StmtView>,
    st: Map<Seq<char>, A>,
    call: spec_fn(Seq<char>, A) -> A,
    x: Seq<char>,
)
    requires
        forall|p: int| 0 <= p < stmts.len() ==> (#[trigger] stmts[p]).0 != x,
    ensures
        run(stmts, st, call)[x] == st[x],
    decreases stmts.len(),
{
    if stmts.len() > 0 {
        let init = stmts.drop_last();
        assert forall|p: int| 0 <= p < init.len() implies (#[trigger] init[p]).0 != x by {
            assert(init[p] == stmts[p]);
        }
        assert(stmts.last() == stmts[stmts.len() - 1]);
        lemma_run_untouched(init, st, call, x);
    }
}

proof fn lemma_run_entry<A>(
    fields: Seq<FieldDecl>,
    e: ConfigEntry,
    k: int,
    st: Map<Seq<char>, A>,
    call: spec_fn(Seq<char>, A) -> A,
)
    requires
        distinct_idents(fields),
        0 <= k < fields.len(),
        st.dom().contains(ident_text(fields[k])),
    ensures
        run(stmts_for(fields, e), st, call)[ident_text(fields[k])] == if field_matches(
            fields[k],
            e,
        ) {
            call(e.func.text(), st[ident_text(fields[k])])
        } else {
            st[ident_text(fields[k])]
        },
    decreases fields.len(),
{
    let x = ident_text(fields[k]);
    let init = fields.drop_last();
    let n = fields.len() - 1;
    assert(fields.last() == fields[n]);
    let prefix = stmts_for(init, e);
    let full = prefix.push(stmt_of(fields[n], e));
    if field_matches(fields[n], e) {
        assert(stmts_for(fields, e) == full);
        assert(full.drop_last() =~= prefix);
        assert(full.last() == stmt_of(fields[n], e));
    } else {
        assert(stmts_for(fields, e) == prefix);
    }
    if k < n {
        assert(init[k] == fields[k]);
        assert(distinct_idents(init)) by {
            assert forall|i: int, j: int|
                0 <= i < init.len() && 0 <= j < init.len() && i != j implies ident_text(
                #[trigger] init[i],
            ) != ident_text(#[trigger] init[j]) by {
                assert(init[i] == fields[i]);
                assert(init[j] == fields[j]);
            }
        }
        lemma_run_entry(init, e, k, st, call);
        assert(ident_text(fields[n]) != x);
    } else {
        assert forall|p: int| 0 <= p < prefix.len() implies (#[trigger] prefix[p]).0 != x by {
            let i = lemma_stmt_origin(init, e, p);
            assert(init[i] == fields[i]);
        }
        lemma_run_untouched(prefix, st, call, x);
    }
}

/// Where a field matches two entries, its final value is the later entry's
/// function applied to the earlier entry's function applied to its original
/// value: each statement works on the value the field holds when it runs.
pub proof fn lemma_double_match_effect<A>(
    fields: Seq<FieldDecl>,
    e1: ConfigEntry,
    e2: ConfigEntry,
    k: int,
    st: Map<Seq<char>, A>,
    call: spec_fn(Seq<char>, A) -> A,
)
    requires
        distinct_idents(fields),
        0 <= k < fields.len(),
        field_matches(fields[k], e1),
        field_matches(fields[k], e2),
        st.dom().contains(ident_text(fields[k])),
    ensures
        run(all_stmts(fields, seq![e1, e2]), st, call)[ident_text(fields[k])] == call(
            e2.func.text(),
            call(e1.func.text(), st[ident_text(fields[k])]),
        ),
{
    let es = seq![e1, e2];
    assert(es.drop_last() =~= seq![e1]);
    assert(seq![e1].drop_last() =~= Seq::<ConfigEntry>::empty());
    assert(seq![e1].last() == e1);
    let s1 = stmts_for(fields, e1);
    let s2 = stmts_for(fields, e2);
    assert(all_stmts(fields, Seq::<ConfigEntry>::empty()) == Seq::<StmtView>::empty());
    assert(all_stmts(fields, seq![e1]) =~= s1);
    assert(all_stmts(fields, es) == s1 + s2);
    lemma_run_append(s1, s2, st, call);
    lemma_run_entry(fields, e1, k, st, call);
    let mid = run(s1, st, call);
    lemma_run_keeps_domain(s1, st, call, ident_text(fields[k]));
    lemma_run_entry(fields, e2, k, mid, call);
}

/// Two expansions of the same declaration with the same annotation produce
/// the same text, or fail the same way.
pub proof fn lemma_expansion_deterministic(
    decl: StructDecl,
    items: Seq<AttrItem>,
    r1: Result<String, ExpandError>,
    r2: Result<String, ExpandError>,
)
    requires
        text_outcome(expansion(decl, items), r1),
        text_outcome(expansion(decl, items), r2),
    ensures
        r1 is Ok <==> r2 is Ok,
        r1 is Ok ==> r1->Ok_0@ == r2->Ok_0@,
{
}

} // verus!
