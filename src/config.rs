//! The annotation: its entries, and how they are read from its items.
use vstd::prelude::*;
use crate::path::TypePath;
use crate::error::{ConfigError, EntryKey};

verus! {

/// One pair of the annotation: fields of type `ty` are passed through `func`.
pub struct ConfigEntry {
    pub ty: TypePath,
    pub func: TypePath,
}


/// The value of `key = value`: a path (possibly given as a string literal
/// holding one), or anything else.
pub enum MetaValue {
    Path(TypePath),
    Invalid,
}

/// How an item inside `with(...)` is written: a bare word, `key = value`, or
/// `key(...)`.
pub enum NestedKind {
    Word,
    Value(MetaValue),
    List,
}

/// An item inside `with(...)`.
pub struct NestedItem {
    pub key: String,
    pub kind: NestedKind,
}

/// How an item of the annotation is written: a bare word, `key = value`, or
/// `key(...)` with the items inside the parentheses.
pub enum AttrKind {
    Word,
    Value,
    List(Vec<NestedItem>),
}

/// One item of the annotation, in order over all its occurrences on the
/// declaration.
pub struct AttrItem {
    pub key: String,
    pub kind: AttrKind,
}

/// The path that the first item with key `k` gives, if it is written
/// `k = <path>`.
pub open spec fn first_path(ns: Seq<NestedItem>, k: Seq<char>) -> Option<TypePath>
    decreases ns.len(),
{
    if ns.len() == 0 {
        None
    } else if ns[0].key@ == k {
        match ns[0].kind {
            NestedKind::Value(MetaValue::Path(p)) => Some(p),
            _ => None,
        }
    } else {
        first_path(ns.drop_first(), k)
    }
}

pub open spec fn is_path_value(n: NestedItem) -> bool {
    n.kind matches NestedKind::Value(MetaValue::Path(_))
}

/// The error, if any, of one item inside `with(...)`, given whether `ty` and
/// `func` were seen before it.
pub open spec fn nested_error(idx: usize, n: NestedItem, seen_ty: bool, seen_func: bool) -> Seq<
    ConfigError,
> {
    if n.key@ == "ty"@ {
        if seen_ty {
            seq![ConfigError::DuplicateField { item: idx, field: EntryKey::Ty }]
        } else if is_path_value(n) {
            Seq::empty()
        } else {
            seq![ConfigError::InvalidValue { item: idx, field: EntryKey::Ty }]
        }
    } else if n.key@ == "func"@ {
        if seen_func {
            seq![ConfigError::DuplicateField { item: idx, field: EntryKey::Func }]
        } else if is_path_value(n) {
            Seq::empty()
        } else {
            seq![ConfigError::InvalidValue { item: idx, field: EntryKey::Func }]
        }
    } else {
        seq![ConfigError::UnknownEntryField { item: idx, key: n.key }]
    }
}

/// The keys that never appeared.
pub open spec fn missing_errors(idx: usize, seen_ty: bool, seen_func: bool) -> Seq<ConfigError> {
    let t = if seen_ty {
        Seq::empty()
    } else {
        seq![ConfigError::MissingField { item: idx, field: EntryKey::Ty }]
    };
    let f = if seen_func {
        Seq::empty()
    } else {
        seq![ConfigError::MissingField { item: idx, field: EntryKey::Func }]
    };
    t + f
}

/// The errors of the items inside one `with(...)`, in order, then those of the
/// missing keys.
pub open spec fn nested_errors(idx: usize, ns: Seq<NestedItem>, seen_ty: bool, seen_func: bool) -> Seq<
    ConfigError,
>
    decreases ns.len(),
{
    if ns.len() == 0 {
        missing_errors(idx, seen_ty, seen_func)
    } else {
        nested_error(idx, ns[0], seen_ty, seen_func) + nested_errors(
            idx,
            ns.drop_first(),
            seen_ty || ns[0].key@ == "ty"@,
            seen_func || ns[0].key@ == "func"@,
        )
    }
}

/// The errors of one item of the annotation.
pub open spec fn item_errors(idx: usize, it: AttrItem) -> Seq<ConfigError> {
    if it.key@ != "with"@ {
        seq![ConfigError::UnknownField { item: idx, key: it.key }]
    } else {
        match it.kind {
            AttrKind::List(ns) => nested_errors(idx, ns@, false, false),
            _ => seq![ConfigError::UnexpectedFormat { item: idx }],
        }
    }
}

/// The errors of the items, the first of them at position `idx`.
pub open spec fn all_errors(items: Seq<AttrItem>, idx: int) -> Seq<ConfigError>
    decreases items.len(),
{
    if items.len() == 0 {
        Seq::empty()
    } else {
        item_errors(idx as usize, items[0]) + all_errors(items.drop_first(), idx + 1)
    }
}

/// The entry that an item declares, when it declares one.
pub open spec fn item_entry(it: AttrItem) -> Option<ConfigEntry> {
    if it.key@ != "with"@ {
        None
    } else {
        match it.kind {
            AttrKind::List(ns) => match (first_path(ns@, "ty"@), first_path(ns@, "func"@)) {
                (Some(t), Some(f)) => Some(ConfigEntry { ty: t, func: f }),
                _ => None,
            },
            _ => None,
        }
    }
}

/// The entries that the items declare, in order.
pub open spec fn entries_of(items: Seq<AttrItem>) -> Seq<ConfigEntry>
    decreases items.len(),
{
    if items.len() == 0 {
        Seq::empty()
    } else {
        let rest = entries_of(items.drop_first());
        match item_entry(items[0]) {
            Some(e) => seq![e] + rest,
            None => rest,
        }
    }
}

/// The configuration that the items declare, or all the errors in them.
pub open spec fn extraction(items: Seq<AttrItem>) -> Result<Seq<ConfigEntry>, Seq<ConfigError>> {
    if all_errors(items, 0).len() == 0 {
        Ok(entries_of(items))
    } else {
        Err(all_errors(items, 0))
    }
}

fn key_is(key: &String, name: &str) -> (r: bool)
    ensures
        r == (key@ == name@),
{
    *key == String::from_str(name)
}


/// Reads the items inside one `with(...)`: its errors, and the paths that the
/// first `ty` and the first `func` give.
fn parse_entry(idx: usize, nested: Vec<NestedItem>) -> (r: (
    Vec<ConfigError>,
    Option<TypePath>,
    Option<TypePath>,
))
    ensures
        r.0@ == nested_errors(idx, nested@, false, false),
        r.1 == first_path(nested@, "ty"@),
        r.2 == first_path(nested@, "func"@),
{
    let ghost all = nested@;
    let mut rest = nested;
    let mut errs: Vec<ConfigError> = Vec::new();
    let mut seen_ty = false;
    let mut seen_func = false;
    let mut ty: Option<TypePath> = None;
    let mut func: Option<TypePath> = None;
    while rest.len() > 0
        invariant
            errs@ + nested_errors(idx, rest@, seen_ty, seen_func) == nested_errors(
                idx,
                all,
                false,
                false,
            ),
            first_path(all, "ty"@) == (if seen_ty {
                ty
            } else {
                first_path(rest@, "ty"@)
            }),
            first_path(all, "func"@) == (if seen_func {
                func
            } else {
                first_path(rest@, "func"@)
            }),
            !seen_ty ==> ty is None,
            !seen_func ==> func is None,
        decreases rest@.len(),
    {
        let ghost before = rest@;
        let ghost errs0 = errs@;
        let ghost st = seen_ty;
        let ghost sf = seen_func;
        let item = rest.remove(0);
        proof {
            assert(rest@ =~= before.drop_first());
        }
        let is_ty = key_is(&item.key, "ty");
        let is_func = key_is(&item.key, "func");
        let ghost e = nested_error(idx, item, st, sf);
        proof {
            reveal_strlit("ty");
            reveal_strlit("func");
            assert(item == before[0]);
            assert("ty"@ != "func"@) by {
                assert("ty"@.len() != "func"@.len());
            }
            assert(nested_errors(idx, before, st, sf) == e + nested_errors(
                idx,
                before.drop_first(),
                st || item.key@ == "ty"@,
                sf || item.key@ == "func"@,
            ));
        }
        if is_ty {
            if seen_ty {
                errs.push(ConfigError::DuplicateField { item: idx, field: EntryKey::Ty });
            } else {
                match item.kind {
                    NestedKind::Value(MetaValue::Path(p)) => {
                        ty = Some(p);
                    },
                    _ => {
                        errs.push(ConfigError::InvalidValue { item: idx, field: EntryKey::Ty });
                    },
                }
            }
            seen_ty = true;
        } else if is_func {
            if seen_func {
                errs.push(ConfigError::DuplicateField { item: idx, field: EntryKey::Func });
            } else {
                match item.kind {
                    NestedKind::Value(MetaValue::Path(p)) => {
                        func = Some(p);
                    },
                    _ => {
                        errs.push(ConfigError::InvalidValue { item: idx, field: EntryKey::Func });
                    },
                }
            }
            seen_func = true;
        } else {
            errs.push(ConfigError::UnknownEntryField { item: idx, key: item.key });
        }
        proof {
            assert(errs@ =~= errs0 + e);
            assert(errs0 + nested_errors(idx, before, st, sf) =~= errs@ + nested_errors(
                idx,
                rest@,
                seen_ty,
                seen_func,
            ));
        }
    }
    proof {
        assert(errs@ + missing_errors(idx, seen_ty, seen_func) == nested_errors(idx, all, false, false));
    }
    if !seen_ty {
        errs.push(ConfigError::MissingField { item: idx, field: EntryKey::Ty });
    }
    if !seen_func {
        errs.push(ConfigError::MissingField { item: idx, field: EntryKey::Func });
    }
    proof {
        assert(errs@ =~= nested_errors(idx, all, false, false));
    }
    (errs, ty, func)
}


/// Reads the annotation's items into its entries, in order. Every malformed
/// item is reported, and then no entry is returned.
pub fn extract_models(items: Vec<AttrItem>) -> (r: Result<Vec<ConfigEntry>, Vec<ConfigError>>)
    ensures
        match r {
            Ok(v) => extraction(items@) == Ok::<Seq<ConfigEntry>, Seq<ConfigError>>(v@),
            Err(e) => extraction(items@) == Err::<Seq<ConfigEntry>, Seq<ConfigError>>(e@),
        },
{
    let ghost all = items@;
    let mut rest = items;
    let total = rest.len();
    let mut errs: Vec<ConfigError> = Vec::new();
    let mut entries: Vec<ConfigEntry> = Vec::new();
    let mut idx: usize = 0;
    while rest.len() > 0
        invariant
            all.len() == total,
            idx + rest@.len() == all.len(),
            errs@ + all_errors(rest@, idx as int) == all_errors(all, 0),
            entries@ + entries_of(rest@) == entries_of(all),
        decreases rest@.len(),
    {
        let ghost before = rest@;
        let ghost errs0 = errs@;
        let ghost entries0 = entries@;
        let item = rest.remove(0);
        proof {
            assert(rest@ =~= before.drop_first());
            assert(item == before[0]);
        }
        let ghost e = item_errors(idx, item);
        let ghost m = item_entry(item);
        if !key_is(&item.key, "with") {
            errs.push(ConfigError::UnknownField { item: idx, key: item.key });
        } else {
            match item.kind {
                AttrKind::List(ns) => {
                    let (mut es, t, f) = parse_entry(idx, ns);
                    errs.append(&mut es);
                    match (t, f) {
                        (Some(t), Some(f)) => {
                            entries.push(ConfigEntry { ty: t, func: f });
                        },
                        _ => {},
                    }
                },
                _ => {
                    errs.push(ConfigError::UnexpectedFormat { item: idx });
                },
            }
        }
        proof {
            assert(errs@ =~= errs0 + e);
            assert(errs0 + all_errors(before, idx as int) =~= errs@ + all_errors(
                rest@,
                idx + 1,
            ));
            match m {
                Some(x) => {
                    assert(entries@ =~= entries0.push(x));
                    assert(entries0 + entries_of(before) =~= entries@ + entries_of(rest@));
                },
                None => {
                    assert(entries@ == entries0);
                },
            }
        }
        idx = idx + 1;
    }
    proof {
        assert(errs@ =~= all_errors(all, 0));
        assert(entries@ =~= entries_of(all));
    }
    if errs.len() == 0 {
        Ok(entries)
    } else {
        Err(errs)
    }
}

} // verus!
