use struct_update::config::{
    extract_models, AttrItem, AttrKind, ConfigEntry, MetaValue, NestedItem, NestedKind,
};
use struct_update::decl::{DeclData, FieldDecl, FieldType, FieldsKind, StructDecl};
use struct_update::error::{ConfigError, EntryKey, ExpandError, FatalError};
use struct_update::expand::{derive_struct_update, derive_struct_update_impl};
use struct_update::path::{PathSegment, TypePath};
use struct_update::synth::generate_update_func;

fn path(text: &str) -> TypePath {
    let (leading_colon, rest) = match text.strip_prefix("::") {
        Some(r) => (true, r),
        None => (false, text),
    };
    TypePath {
        leading_colon,
        segments: rest
            .split("::")
            .map(|s| PathSegment { ident: s.to_string(), args: String::new() })
            .collect(),
    }
}

fn generic(ident: &str, args: &str) -> TypePath {
    TypePath {
        leading_colon: false,
        segments: vec![PathSegment { ident: ident.to_string(), args: args.to_string() }],
    }
}

fn field(name: &str, ty: TypePath) -> FieldDecl {
    FieldDecl { ident: Some(name.to_string()), ty: FieldType::Path(ty) }
}

fn named(name: &str, vis: &str, fields: Vec<FieldDecl>) -> StructDecl {
    StructDecl {
        ident: name.to_string(),
        vis: vis.to_string(),
        data: DeclData::Struct { kind: FieldsKind::Named, fields },
    }
}

fn nested(key: &str, value: &str) -> NestedItem {
    NestedItem { key: key.to_string(), kind: NestedKind::Value(MetaValue::Path(path(value))) }
}

fn with(ty: &str, func: &str) -> AttrItem {
    AttrItem {
        key: "with".to_string(),
        kind: AttrKind::List(vec![nested("ty", ty), nested("func", func)]),
    }
}

fn with_items(items: Vec<NestedItem>) -> AttrItem {
    AttrItem { key: "with".to_string(), kind: AttrKind::List(items) }
}

fn count_and_name() -> StructDecl {
    named("Counter", "pub", vec![field("count", path("i32")), field("name", path("String"))])
}

fn diagnostics(r: Result<String, ExpandError>) -> Vec<ConfigError> {
    match r {
        Err(ExpandError::Diagnostic(v)) => v,
        _ => panic!("expected a diagnostic"),
    }
}

fn fatal(r: Result<String, ExpandError>) -> FatalError {
    match r {
        Err(ExpandError::Fatal(f)) => f,
        _ => panic!("expected a fatal error"),
    }
}

#[test]
fn single_entry_updates_only_matching_field() {
    let g = derive_struct_update_impl(&count_and_name(), vec![with("i32", "double")]).ok().unwrap();
    assert_eq!(g.body.len(), 1);
    assert_eq!(g.body[0].render(), "self.count = double(self.count.clone());");
    assert_eq!(
        derive_struct_update(&count_and_name(), vec![with("i32", "double")]).ok().unwrap(),
        "impl Counter { pub fn update_struct(&mut self) { \
         self.count = double(self.count.clone()); } }"
    );
}

#[test]
fn zero_entries_is_fatal() {
    assert_eq!(fatal(derive_struct_update(&count_and_name(), vec![])), FatalError::NoModels);
}

#[test]
fn tuple_structure_is_fatal() {
    let decl = StructDecl {
        ident: "Pair".to_string(),
        vis: String::new(),
        data: DeclData::Struct {
            kind: FieldsKind::Unnamed,
            fields: vec![FieldDecl { ident: None, ty: FieldType::Path(path("i32")) }],
        },
    };
    assert_eq!(fatal(derive_struct_update(&decl, vec![with("i32", "double")])), FatalError::NotNamedFields);
}

#[test]
fn unit_structure_is_fatal() {
    let decl = StructDecl {
        ident: "Unit".to_string(),
        vis: String::new(),
        data: DeclData::Struct { kind: FieldsKind::Unit, fields: vec![] },
    };
    assert_eq!(fatal(derive_struct_update(&decl, vec![with("i32", "double")])), FatalError::NotNamedFields);
}

#[test]
fn enumeration_is_fatal() {
    let decl = StructDecl { ident: "E".to_string(), vis: String::new(), data: DeclData::Enum };
    assert_eq!(fatal(derive_struct_update(&decl, vec![with("i32", "double")])), FatalError::NotAStruct);
    let decl = StructDecl { ident: "U".to_string(), vis: String::new(), data: DeclData::Union };
    assert_eq!(fatal(derive_struct_update(&decl, vec![])), FatalError::NotAStruct);
}

#[test]
fn missing_func_is_a_diagnostic() {
    let items = vec![with("String", "trim"), with_items(vec![nested("ty", "i32")])];
    let errs = diagnostics(derive_struct_update(&count_and_name(), items));
    assert_eq!(errs.len(), 1);
    assert!(matches!(errs[0], ConfigError::MissingField { item: 1, field: EntryKey::Func }));
}

#[test]
fn missing_both_keys_reports_both() {
    let errs = diagnostics(derive_struct_update(&count_and_name(), vec![with_items(vec![])]));
    assert_eq!(errs.len(), 2);
    assert!(matches!(errs[0], ConfigError::MissingField { item: 0, field: EntryKey::Ty }));
    assert!(matches!(errs[1], ConfigError::MissingField { item: 0, field: EntryKey::Func }));
}

#[test]
fn diagnostic_wins_over_empty_configuration() {
    let items = vec![AttrItem { key: "model".to_string(), kind: AttrKind::Word }];
    let errs = diagnostics(derive_struct_update(&count_and_name(), items));
    assert_eq!(errs.len(), 1);
    match &errs[0] {
        ConfigError::UnknownField { item, key } => {
            assert_eq!(*item, 0);
            assert_eq!(key, "model");
        }
        _ => panic!("expected an unknown field"),
    }
}

#[test]
fn with_as_word_or_value_is_unexpected() {
    let items = vec![
        AttrItem { key: "with".to_string(), kind: AttrKind::Word },
        AttrItem { key: "with".to_string(), kind: AttrKind::Value },
    ];
    let errs = diagnostics(derive_struct_update(&count_and_name(), items));
    assert_eq!(errs.len(), 2);
    assert!(matches!(errs[0], ConfigError::UnexpectedFormat { item: 0 }));
    assert!(matches!(errs[1], ConfigError::UnexpectedFormat { item: 1 }));
}

#[test]
fn duplicate_unknown_and_invalid_keys() {
    let inner = vec![
        nested("ty", "i32"),
        nested("ty", "u8"),
        NestedItem { key: "func".to_string(), kind: NestedKind::Value(MetaValue::Invalid) },
        NestedItem { key: "extra".to_string(), kind: NestedKind::Word },
        NestedItem { key: "func".to_string(), kind: NestedKind::List },
    ];
    let errs = match extract_models(vec![with_items(inner)]) {
        Err(e) => e,
        Ok(_) => panic!("expected errors"),
    };
    assert_eq!(errs.len(), 4);
    assert!(matches!(errs[0], ConfigError::DuplicateField { item: 0, field: EntryKey::Ty }));
    assert!(matches!(errs[1], ConfigError::InvalidValue { item: 0, field: EntryKey::Func }));
    match &errs[2] {
        ConfigError::UnknownEntryField { item, key } => {
            assert_eq!(*item, 0);
            assert_eq!(key, "extra");
        }
        _ => panic!("expected an unknown entry field"),
    }
    assert!(matches!(errs[3], ConfigError::DuplicateField { item: 0, field: EntryKey::Func }));
}

#[test]
fn ty_as_word_is_invalid() {
    let inner = vec![
        NestedItem { key: "ty".to_string(), kind: NestedKind::Word },
        nested("func", "f"),
    ];
    let errs = extract_models(vec![with_items(inner)]).err().unwrap();
    assert_eq!(errs.len(), 1);
    assert!(matches!(errs[0], ConfigError::InvalidValue { item: 0, field: EntryKey::Ty }));
}

#[test]
fn entries_keep_their_order() {
    let v = extract_models(vec![with("i32", "a"), with("u8", "b::c")]).ok().unwrap();
    assert_eq!(v.len(), 2);
    assert_eq!(v[0].func.render(), "a");
    assert_eq!(v[1].ty.render(), "u8");
    assert_eq!(v[1].func.render(), "b::c");
}

#[test]
fn keys_in_either_order() {
    let v = extract_models(vec![with_items(vec![nested("func", "f"), nested("ty", "u8")])])
        .ok()
        .unwrap();
    assert_eq!(v[0].ty.render(), "u8");
    assert_eq!(v[0].func.render(), "f");
}

#[test]
fn statement_count_matches_pairs() {
    let decl = named(
        "S",
        "",
        vec![
            field("a", path("i32")),
            field("b", path("u8")),
            field("c", path("i32")),
            field("d", path("String")),
        ],
    );
    let items = vec![with("i32", "f"), with("String", "g"), with("bool", "h")];
    let g = derive_struct_update_impl(&decl, items).ok().unwrap();
    assert_eq!(g.body.len(), 3);
    let fields: Vec<String> = g.body.iter().map(|s| s.field.clone()).collect();
    assert_eq!(fields, vec!["a", "c", "d"]);
}

#[test]
fn double_match_updates_twice_in_entry_order() {
    let decl = named("S", "", vec![field("x", path("i32")), field("y", path("u8"))]);
    let out = derive_struct_update(&decl, vec![with("i32", "first"), with("std::i32", "second")])
        .ok()
        .unwrap();
    assert_eq!(
        out,
        "impl S { fn update_struct(&mut self) { \
         self.x = first(self.x.clone()); self.x = second(self.x.clone()); } }"
    );
}

#[test]
fn non_bare_types_never_match() {
    let decl = named(
        "S",
        "",
        vec![
            field("v", generic("Vec", "<i32>")),
            FieldDecl { ident: Some("r".to_string()), ty: FieldType::Other },
            field("o", generic("Option", "<u8>")),
            field("n", path("i32")),
        ],
    );
    let items = vec![with("Vec", "f"), with("i32", "g"), with("Option", "h")];
    let g = derive_struct_update_impl(&decl, items).ok().unwrap();
    assert_eq!(g.body.len(), 1);
    assert_eq!(g.body[0].render(), "self.n = g(self.n.clone());");
}

#[test]
fn qualifiers_are_ignored() {
    let decl = named("S", "pub(crate)", vec![field("s", path("std::string::String"))]);
    let out = derive_struct_update(&decl, vec![with("::alloc::string::String", "m::trim")]).ok().unwrap();
    assert_eq!(
        out,
        "impl S { pub(crate) fn update_struct(&mut self) { self.s = m::trim(self.s.clone()); } }"
    );
}

#[test]
fn no_matching_field_gives_empty_body() {
    let out = derive_struct_update(&count_and_name(), vec![with("bool", "not")]).ok().unwrap();
    assert_eq!(out, "impl Counter { pub fn update_struct(&mut self) { } }");
}

#[test]
fn unnamed_field_is_fatal() {
    let decl = named(
        "S",
        "",
        vec![field("a", path("i32")), FieldDecl { ident: None, ty: FieldType::Path(path("u8")) }],
    );
    assert_eq!(fatal(derive_struct_update(&decl, vec![with("bool", "f")])), FatalError::UnnamedField);
}

#[test]
fn generate_for_one_entry() {
    let fields = vec![field("a", path("i32")), field("b", path("i32"))];
    let e = ConfigEntry { ty: path("i32"), func: path("::m::neg") };
    let v = generate_update_func(&fields, &e).ok().unwrap();
    assert_eq!(v.len(), 2);
    assert_eq!(v[1].render(), "self.b = ::m::neg(self.b.clone());");
}

#[test]
fn repeated_runs_give_identical_text() {
    let a = derive_struct_update(&count_and_name(), vec![with("i32", "d"), with("String", "t")]);
    let b = derive_struct_update(&count_and_name(), vec![with("i32", "d"), with("String", "t")]);
    assert_eq!(a.ok().unwrap(), b.ok().unwrap());
}

#[test]
fn path_with_generic_arguments_renders() {
    let p = TypePath {
        leading_colon: false,
        segments: vec![
            PathSegment { ident: "conv".to_string(), args: String::new() },
            PathSegment { ident: "into".to_string(), args: "::<u8>".to_string() },
        ],
    };
    assert_eq!(p.render(), "conv::into::<u8>");
    assert!(!p.is_bare());
    assert!(p.simple_name().is_none());
    assert_eq!(path("a::b").simple_name().unwrap(), "b");
}
