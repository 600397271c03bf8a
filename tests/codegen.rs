use std::str::FromStr;

use proc_macro2::{Delimiter, TokenStream, TokenTree};
use syn_codegen::arity::check_arity;
use syn_codegen::artifacts::{add_terminal_types, generate_files};
use syn_codegen::classify::{visit, Kind, Operand};
use syn_codegen::emit::{generate, GenError, State};
use syn_codegen::error::{parse_error, ParseError};
use syn_codegen::extract::{
    load_file, parse_attrs, parse_type, AstEnum, AstEnumOfStructs, AstStruct, Entry, ExtractError,
};
use syn_codegen::schema::{AstItem, Field, Fields, GenericArg, Lookup, PathSegment, Shape, TypeExpr, Variant};
use syn_codegen::text::{decimal, under_name};
use syn_codegen::tokens::{Delim, Tok};

fn flatten(ts: TokenStream, out: &mut Vec<Tok>) {
    for tt in ts {
        match tt {
            TokenTree::Ident(i) => out.push(Tok::Ident(i.to_string())),
            TokenTree::Punct(p) => out.push(Tok::Punct(p.as_char())),
            TokenTree::Literal(l) => out.push(Tok::Literal(l.to_string())),
            TokenTree::Group(g) => {
                let d = match g.delimiter() {
                    Delimiter::Parenthesis => Delim::Paren,
                    Delimiter::Bracket => Delim::Bracket,
                    Delimiter::Brace => Delim::Brace,
                    Delimiter::None => Delim::Invisible,
                };
                out.push(Tok::Open(d));
                flatten(g.stream(), out);
                out.push(Tok::Close(d));
            }
        }
    }
}

fn toks(src: &str) -> Vec<Tok> {
    let mut out = Vec::new();
    flatten(TokenStream::from_str(src).unwrap(), &mut out);
    out
}

fn path(names: &[&str]) -> TypeExpr {
    // builds `A<B<C>>` from ["A", "B", "C"]
    let mut ty: Option<TypeExpr> = None;
    for n in names.iter().rev() {
        let args = match ty.take() {
            Some(t) => vec![GenericArg::Type(t)],
            None => vec![],
        };
        ty = Some(TypeExpr::Path(vec![PathSegment { ident: n.to_string(), args }]));
    }
    ty.unwrap()
}

fn record(name: &str, fields: Fields) -> AstItem {
    AstItem { name: name.to_string(), shape: Shape::Record(fields), features: vec![], eos_full: false }
}

fn named(name: &str, ty: TypeExpr) -> Field {
    Field { name: Some(name.to_string()), ty }
}

fn table(items: Vec<AstItem>) -> Lookup {
    let mut l = Lookup::new();
    for it in items {
        l.insert(it);
    }
    l
}

fn names(l: &Lookup) -> Vec<String> {
    l.items.iter().map(|i| i.name.clone()).collect()
}

fn items_of(entries: Vec<Entry>) -> Vec<AstItem> {
    let mut out = Vec::new();
    for e in entries {
        if let Entry::Items(its) = e {
            out.extend(its);
        }
    }
    out
}

#[test]
fn parse_error_messages() {
    let e = ParseError::new("bad token");
    assert_eq!(e.description(), "bad token");
    assert_eq!(e.to_string(), "bad token");
    let d = parse_error::<u8>().err().unwrap();
    assert_eq!(d.description(), "failed to parse");
    assert!(d.message.is_none());
}

#[test]
fn arity_mismatch_two_three() {
    assert_eq!(check_arity(2, 3), Err("expected 2 element(s), got 3".to_string()));
    assert_eq!(check_arity(3, 2), Err("expected 3 element(s), got 2".to_string()));
    assert_eq!(check_arity(3, 3), Ok(()));
}

#[test]
fn decimal_numbers() {
    assert_eq!(decimal(0), "0");
    assert_eq!(decimal(7), "7");
    assert_eq!(decimal(10), "10");
    assert_eq!(decimal(4096), "4096");
}

#[test]
fn snake_case_names() {
    assert_eq!(under_name(&"ExprBinary".to_string()), "expr_binary");
    assert_eq!(under_name(&"Span".to_string()), "span");
}

#[test]
fn lookup_orders_by_name_and_replaces() {
    let mut l = table(vec![record("Pat", Fields::Unit), record("Expr", Fields::Unit), record("Item", Fields::Unit)]);
    assert_eq!(names(&l), vec!["Expr", "Item", "Pat"]);
    l.insert(AstItem { eos_full: true, ..record("Item", Fields::Unit) });
    assert_eq!(names(&l), vec!["Expr", "Item", "Pat"]);
    assert!(l.items[1].eos_full);
    assert_eq!(l.find("Pat"), Some(2));
    assert_eq!(l.find("Type"), None);
}

#[test]
fn terminal_types_are_added() {
    let mut l = table(vec![record("Expr", Fields::Unit)]);
    add_terminal_types(&mut l);
    assert_eq!(names(&l), vec!["Expr", "Ident", "Span"]);
}

#[test]
fn field_in_option_box_folds_and_visits() {
    let l = table(vec![record("Expr", Fields::Unit)]);
    let ty = path(&["Option", "Box", "Expr"]);
    let op = Operand::Owned("_i.cond".to_string());
    assert_eq!(
        visit(&ty, &l, Kind::Fold, &op),
        "(_i.cond).map(|it| { Box::new(_visitor.fold_expr(*it)) })"
    );
    assert_eq!(visit(&ty, &l, Kind::Visit, &op), "if let Some(ref it) = _i.cond { _visitor.visit_expr(it) }");
    assert_eq!(
        visit(&ty, &l, Kind::VisitMut, &op),
        "if let Some(ref mut it) = _i.cond { _visitor.visit_expr_mut(it) }"
    );
}

#[test]
fn sequences_and_delimited_lists() {
    let l = table(vec![record("Attribute", Fields::Unit), record("Expr", Fields::Unit)]);
    let op = Operand::Owned("_i.attrs".to_string());
    let v = path(&["Vec", "Attribute"]);
    assert_eq!(visit(&v, &l, Kind::Visit, &op), "for it in &_i.attrs { _visitor.visit_attribute(it) }");
    assert_eq!(visit(&v, &l, Kind::Fold, &op), "FoldHelper::lift(_i.attrs, |it| { _visitor.fold_attribute(it) })");
    let d = TypeExpr::Path(vec![PathSegment {
        ident: "Delimited".to_string(),
        args: vec![GenericArg::Type(path(&["Expr"])), GenericArg::Type(TypeExpr::Other)],
    }]);
    let op = Operand::Owned("_i.elems".to_string());
    assert_eq!(
        visit(&d, &l, Kind::VisitMut, &op),
        "for mut el in &mut _i.elems { let it = el.item_mut(); _visitor.visit_expr_mut(it) }"
    );
    assert_eq!(
        visit(&d, &l, Kind::Visit, &op),
        "for el in &_i.elems { let it = el.item(); _visitor.visit_expr(it) }"
    );
}

#[test]
fn unresolved_field_is_skipped_or_passed_through() {
    let l = table(vec![record("Expr", Fields::Unit)]);
    let ty = path(&["Vec", "String"]);
    let op = Operand::Owned("_i.names".to_string());
    assert_eq!(visit(&ty, &l, Kind::Fold, &op), "_i.names");
    assert_eq!(visit(&ty, &l, Kind::Visit, &op), "// Skipped field _i.names");
    let b = Operand::Borrowed("_binding_0".to_string());
    assert_eq!(visit(&TypeExpr::Other, &l, Kind::Fold, &b), "*_binding_0");
}

#[test]
fn extended_only_node_is_wrapped_in_guard_helper() {
    let l = table(vec![AstItem { eos_full: true, ..record("Block", Fields::Unit) }]);
    let op = Operand::Owned("_i.block".to_string());
    assert_eq!(visit(&path(&["Block"]), &l, Kind::Fold, &op), "full!(_visitor.fold_block(_i.block))");
}

#[test]
fn record_with_named_and_positional_fields() {
    let l = table(vec![record("Expr", Fields::Unit)]);
    let named_rec = record("ExprParen", Fields::Named(vec![named("expr", path(&["Box", "Expr"]))]));
    let mut st = State::new();
    assert!(generate(&mut st, &l, &named_rec).is_ok());
    assert!(st.fold_impl.contains("    ExprParen {\n        expr: Box::new(_visitor.fold_expr(*_i.expr)),\n    }\n"));
    assert!(st.visit_impl.contains("    _visitor.visit_expr(&_i.expr);\n"));
    assert!(st.visit_mut_impl.contains("    _visitor.visit_expr_mut(&mut _i.expr);\n"));
    assert!(st.visit_trait.contains("fn visit_expr_paren(&mut self, i: &'ast ExprParen) { visit_expr_paren(self, i) }"));
    let tuple_rec = record("Wrap", Fields::Unnamed(vec![Field { name: None, ty: path(&["Expr"]) }]));
    let mut st = State::new();
    assert!(generate(&mut st, &l, &tuple_rec).is_ok());
    assert!(st.fold_impl.contains("    Wrap (\n        _visitor.fold_expr(_i.0),\n    )\n"));
    let unit = record("Nothing", Fields::Unit);
    let mut st = State::new();
    assert!(generate(&mut st, &l, &unit).is_ok());
    assert!(st.fold_impl.ends_with("_i: Nothing) -> Nothing {\n    _i\n}\n"));
    assert!(st.visit_impl.ends_with("_i: &'ast Nothing) {\n}\n"));
}

#[test]
fn union_variants_bind_payloads() {
    let l = table(vec![record("Expr", Fields::Unit)]);
    let u = AstItem {
        name: "Stmt".to_string(),
        shape: Shape::Union(vec![
            Variant { name: "Expr".to_string(), fields: Fields::Unnamed(vec![Field { name: None, ty: path(&["Expr"]) }]) },
            Variant { name: "Empty".to_string(), fields: Fields::Unit },
        ]),
        features: vec![],
        eos_full: false,
    };
    let mut st = State::new();
    assert!(generate(&mut st, &l, &u).is_ok());
    assert!(st.visit_impl.contains("    use ::Stmt::*;\n    match *_i {\n        Expr(ref _binding_0, ) => {\n            _visitor.visit_expr(_binding_0);\n        }\n        Empty => { }\n    }\n"));
    assert!(st.fold_impl.contains("    match _i {\n        Expr(_binding_0, ) => {\n            Expr (\n                _visitor.fold_expr(_binding_0),\n            )\n        }\n        Empty => { Empty }\n    }\n"));
}

#[test]
fn struct_variant_aborts_generation() {
    let l0 = table(vec![record("Expr", Fields::Unit)]);
    let bad = AstItem {
        name: "Bad".to_string(),
        shape: Shape::Union(vec![Variant {
            name: "Named".to_string(),
            fields: Fields::Named(vec![named("x", path(&["Expr"]))]),
        }]),
        features: vec![],
        eos_full: false,
    };
    let mut st = State::new();
    match generate(&mut st, &l0, &bad) {
        Err(GenError::StructVariant { node, variant }) => {
            assert_eq!(node, "Bad");
            assert_eq!(variant, "Named");
        }
        Ok(()) => panic!("a variant with named fields was accepted"),
    }
    assert!(st.visit_impl.is_empty() && st.fold_impl.is_empty() && st.visit_trait.is_empty());
    let mut l = table(vec![record("Expr", Fields::Unit)]);
    l.insert(bad);
    assert!(generate_files(&l).is_err());
}

#[test]
fn span_marker_gets_no_span_impl() {
    let mut l = table(vec![record("Expr", Fields::Unit)]);
    add_terminal_types(&mut l);
    let files = generate_files(&l).ok().unwrap();
    assert!(files.spanned.contains("impl Spanned for ::Expr {"));
    assert!(files.spanned.contains("impl Spanned for ::Ident {"));
    assert!(!files.spanned.contains("impl Spanned for ::Span {"));
    assert!(files.visit.contains("pub fn visit_span<'ast, V: Visitor<'ast> + ?Sized>"));
    assert!(files.fold.contains("trait FoldHelper"));
    assert!(files.visit_mut.contains("pub trait VisitorMut {"));
}

#[test]
fn generation_is_deterministic() {
    let a = table(vec![record("Pat", Fields::Unit), record("Expr", Fields::Named(vec![named("p", path(&["Pat"]))]))]);
    let b = table(vec![record("Expr", Fields::Named(vec![named("p", path(&["Pat"]))])), record("Pat", Fields::Unit)]);
    let fa = generate_files(&a).ok().unwrap();
    let fb = generate_files(&b).ok().unwrap();
    assert_eq!(fa.fold, fb.fold);
    assert_eq!(fa.visit, fb.visit);
    assert_eq!(fa.visit_mut, fb.visit_mut);
    assert_eq!(fa.spanned, fb.spanned);
    let again = generate_files(&a).ok().unwrap();
    assert_eq!(fa.visit, again.visit);
}

#[test]
fn parse_type_paths() {
    let t = toks("Option<Box<Expr>>");
    match parse_type(&t, 0, t.len()) {
        TypeExpr::Path(segs) => {
            assert_eq!(segs.len(), 1);
            assert_eq!(segs[0].ident, "Option");
            match &segs[0].args[0] {
                GenericArg::Type(TypeExpr::Path(inner)) => assert_eq!(inner[0].ident, "Box"),
                _ => panic!("expected a type argument"),
            }
        }
        TypeExpr::Other => panic!("expected a path"),
    }
    let t = toks("&'a Expr");
    assert!(matches!(parse_type(&t, 0, t.len()), TypeExpr::Other));
    let t = toks("tokens::Comma");
    match parse_type(&t, 0, t.len()) {
        TypeExpr::Path(segs) => assert_eq!(segs[1].ident, "Comma"),
        TypeExpr::Other => panic!("expected a path"),
    }
}

#[test]
fn load_file_reads_modules_and_forms() {
    let src = r#"
        #![doc(hidden)]
        use std::fmt;
        #[cfg(feature = "full")]
        mod expr;
        mod fold;
        mod inline { fn x() {} }
        fn helper() -> u8 { 1 }
        ast_struct! {
            /// A block.
            pub struct Block #full {
                pub stmts: Vec<Stmt>,
                pub brace: tokens::Brace,
            }
        }
        ast_enum! {
            pub enum Stmt {
                Expr(Box<Expr>),
                Empty,
            }
        }
        ast_enum_of_structs! {
            pub enum Lit {
                pub Int(LitInt {
                    pub value: u64,
                }),
                pub Verbatim(LitVerbatim),
            }
        }
    "#;
    let entries = match load_file(&toks(src), &vec![]) {
        Ok(es) => es,
        Err(_) => panic!("the file did not load"),
    };
    match &entries[0] {
        Entry::Module { name, features } => {
            assert_eq!(name, "expr");
            assert_eq!(features.len(), 1);
            assert!(features[0].contains("cfg"));
        }
        Entry::Items(_) => panic!("expected the module first"),
    }
    let mods = entries.iter().filter(|e| matches!(e, Entry::Module { .. })).count();
    assert_eq!(mods, 1);
    let items = items_of(entries);
    let got: Vec<&str> = items.iter().map(|i| i.name.as_str()).collect();
    assert_eq!(got, vec!["Block", "Stmt", "Lit", "LitInt"]);
    assert!(items[0].eos_full);
    assert_eq!(items[0].features, vec!["#[cfg(feature = \"full\")]".to_string()]);
    match &items[2].shape {
        Shape::Union(vs) => {
            assert_eq!(vs.len(), 2);
            assert_eq!(vs[1].name, "Verbatim");
        }
        Shape::Record(_) => panic!("expected a union"),
    }
}

#[test]
fn feature_predicates_combine() {
    let src = r#"
        #[cfg(q)]
        ast_struct! {
            pub struct Foo #full {
                pub x: Bar,
            }
        }
    "#;
    let outer = vec!["#[cfg(p)]".to_string()];
    let entries = match load_file(&toks(src), &outer) {
        Ok(es) => es,
        Err(_) => panic!("the file did not load"),
    };
    let items = items_of(entries);
    assert_eq!(items.len(), 1);
    let f = &items[0].features;
    assert_eq!(f.len(), 3);
    assert_eq!(f[0], "#[cfg(feature = \"full\")]");
    assert_eq!(f[1], "#[cfg(p)]");
    assert_eq!(f[2], "# [ cfg ( q ) ] ");
    let l = table(items);
    let files = generate_files(&l).ok().unwrap();
    let guard = "#[cfg(feature = \"full\")]\n#[cfg(p)]\n# [ cfg ( q ) ] \n";
    assert!(files.visit.contains(&format!("{}fn visit_foo(", guard)));
    assert!(files.visit.contains(&format!("{}pub fn visit_foo<", guard)));
    assert!(files.fold.contains(&format!("{}pub fn fold_foo<", guard)));
    assert!(files.visit_mut.contains(&format!("{}pub fn visit_foo_mut<", guard)));
    assert!(files.spanned.contains(&format!("{}impl Spanned for ::Foo", guard)));
}

#[test]
fn unparseable_form_fails_the_file() {
    let src = "ast_struct! { pub enum Nope }";
    match load_file(&toks(src), &vec![]) {
        Err(ExtractError::Form(f)) => assert_eq!(f, "ast_struct"),
        _ => panic!("a broken declaration was accepted"),
    }
    let src = "ast_enum_of_structs! { pub enum E { pub A(&'a B), } }";
    assert!(load_file(&toks(src), &vec![]).is_err());
}


#[test]
fn declaration_forms_parse() {
    let t = toks("pub struct Label #manual_extra_traits { pub name: Lifetime, pub colon: tokens::Colon, }");
    let s = AstStruct::parse(&t, 0, t.len()).unwrap();
    assert_eq!(s.0.len(), 1);
    assert_eq!(s.0[0].name, "Label");
    assert!(!s.0[0].eos_full);
    match &s.0[0].shape {
        Shape::Record(Fields::Named(fs)) => {
            assert_eq!(fs.len(), 2);
            assert_eq!(fs[1].name.as_deref(), Some("colon"));
        }
        _ => panic!("expected a record of named fields"),
    }
    let t = toks("pub struct Lifetime(Ident);");
    let s = AstStruct::parse(&t, 0, t.len()).unwrap();
    assert!(matches!(&s.0[0].shape, Shape::Record(Fields::Unnamed(fs)) if fs.len() == 1));

    let t = toks("#[derive(Copy)] pub enum UnOp { Deref(Token![*]), Not(Token![!]), }");
    let e = AstEnum::parse(&t, 0, t.len()).unwrap();
    match &e.0[0].shape {
        Shape::Union(vs) => {
            assert_eq!(vs.len(), 2);
            assert_eq!(vs[0].name, "Deref");
        }
        Shape::Record(_) => panic!("expected a union"),
    }

    let t = toks("pub enum Ty { pub Slice(TypeSlice #full { pub elem: Box<Type>, }), pub Path(TypePath), } do_not_generate_to_tokens");
    let u = AstEnumOfStructs::parse(&t, 0, t.len()).unwrap();
    let got: Vec<&str> = u.0.iter().map(|i| i.name.as_str()).collect();
    assert_eq!(got, vec!["Ty", "TypeSlice"]);
    assert!(u.0[1].eos_full);
    let t = toks("pub enum Ty { pub Slice(TypeSlice) }");
    assert!(AstEnumOfStructs::parse(&t, 0, t.len()).is_none());
}

#[test]
fn attributes_collect_cfg_guards_in_order() {
    let t = toks("#[cfg(a)] #[doc = \"x\"] #[cfg(b)] struct S;");
    let mut cfgs = vec!["#[cfg(p)]".to_string()];
    let end = parse_attrs(&t, 0, t.len(), &mut cfgs);
    assert!(matches!(&t[end], Tok::Ident(s) if s == "struct"));
    assert_eq!(cfgs, vec!["#[cfg(p)]".to_string(), "# [ cfg ( a ) ] ".to_string(), "# [ cfg ( b ) ] ".to_string()]);
    let t = toks("struct S;");
    let mut none: Vec<String> = vec![];
    assert_eq!(parse_attrs(&t, 0, t.len(), &mut none), 0);
    assert!(none.is_empty());
}

#[test]
fn inner_attributes_do_not_guard_items() {
    let src = "#![cfg(x)] ast_enum! { pub enum E { A, B(Expr), } }";
    let entries = match load_file(&toks(src), &vec!["#[cfg(p)]".to_string()]) {
        Ok(es) => es,
        Err(_) => panic!("the file did not load"),
    };
    let items = items_of(entries);
    assert_eq!(items.len(), 1);
    assert_eq!(items[0].features, vec!["#[cfg(p)]".to_string()]);
    assert!(!items[0].eos_full);
}

#[test]
fn inline_modules_are_left_out() {
    let src = "mod inner { ast_struct! { pub struct Hidden; } } mod visit; mod kept;";
    let entries = match load_file(&toks(src), &vec![]) {
        Ok(es) => es,
        Err(_) => panic!("the file did not load"),
    };
    assert_eq!(entries.len(), 1);
    assert!(matches!(&entries[0], Entry::Module { name, .. } if name == "kept"));
}

#[test]
fn broken_enum_form_is_named() {
    match load_file(&toks("ast_enum! { pub struct }"), &vec![]) {
        Err(ExtractError::Form(f)) => assert_eq!(f, "ast_enum"),
        _ => panic!("a broken declaration was accepted"),
    }
    match load_file(&toks("ast_enum_of_structs! { pub enum E { pub A(X) } }"), &vec![]) {
        Err(ExtractError::Form(f)) => assert_eq!(f, "ast_enum_of_structs"),
        _ => panic!("a broken declaration was accepted"),
    }
    let mut stray = toks("fn f() -> u8 { 1 }");
    stray.push(Tok::Close(Delim::Paren));
    assert!(matches!(load_file(&stray, &vec![]), Err(ExtractError::Malformed)));
}

#[test]
fn later_declaration_wins() {
    let mut l = Lookup::new();
    l.insert_all(vec![record("Expr", Fields::Unit), record("Pat", Fields::Unit)]);
    l.insert_all(vec![AstItem { eos_full: true, ..record("Expr", Fields::Unit) }, record("Expr", Fields::Unnamed(vec![]))]);
    assert_eq!(names(&l), vec!["Expr", "Pat"]);
    assert!(matches!(&l.items[0].shape, Shape::Record(Fields::Unnamed(_))));
    assert!(!l.items[0].eos_full);
}

#[test]
fn bare_keyword_items_are_malformed() {
    assert!(matches!(load_file(&toks("fn ;"), &vec![]), Err(ExtractError::Malformed)));
    assert!(matches!(load_file(&toks("struct ;"), &vec![]), Err(ExtractError::Malformed)));
    assert!(load_file(&toks("use a::{b, c}; impl X for Y {} const Z: T = T { a: 1 };"), &vec![]).is_ok());
}

#[test]
fn union_payloads_name_their_members() {
    let t = toks("pub enum Ty { pub Slice(TypeSlice #full { pub elem: Box<Type>, }), pub Path(TypePath), }");
    let u = AstEnumOfStructs::parse(&t, 0, t.len()).unwrap();
    match &u.0[0].shape {
        Shape::Union(vs) => {
            for (v, member) in vs.iter().zip(["TypeSlice", "TypePath"]) {
                match &v.fields {
                    Fields::Unnamed(fs) => match &fs[0].ty {
                        TypeExpr::Path(segs) => {
                            assert_eq!(segs.len(), 1);
                            assert_eq!(segs[0].ident, member);
                        }
                        TypeExpr::Other => panic!("expected a path payload"),
                    },
                    _ => panic!("expected one positional payload"),
                }
            }
        }
        Shape::Record(_) => panic!("expected a union"),
    }
    match &u.0[1].shape {
        Shape::Record(Fields::Named(fs)) => match &fs[0].ty {
            TypeExpr::Path(segs) => {
                assert_eq!(segs[0].ident, "Box");
                assert!(matches!(&segs[0].args[0], GenericArg::Type(TypeExpr::Path(inner)) if inner[0].ident == "Type"));
            }
            TypeExpr::Other => panic!("expected a path"),
        },
        _ => panic!("expected a record"),
    }
}

#[test]
fn type_arguments_are_kept() {
    let t = toks("syn::Delimited<'a, Expr, 3>");
    match parse_type(&t, 0, t.len()) {
        TypeExpr::Path(segs) => {
            assert_eq!(segs.len(), 2);
            assert_eq!(segs[0].ident, "syn");
            assert_eq!(segs[1].args.len(), 3);
            assert!(matches!(&segs[1].args[0], GenericArg::Other));
            assert!(matches!(&segs[1].args[1], GenericArg::Type(TypeExpr::Path(p)) if p[0].ident == "Expr"));
            assert!(matches!(&segs[1].args[2], GenericArg::Other));
        }
        TypeExpr::Other => panic!("expected a path"),
    }
}
