use vstd::prelude::*;
use crate::classify::{Kind, Opnd, Operand, render_field, visit};
use crate::schema::{AstItem, Field, Fields, Lookup, Shape, Variant};
use crate::text::{decimal, decimal_of, snake_of, str_eq, under_name};

verus! {

/// The text generated so far: the methods of the three traits, the free
/// functions of the three traversals, and the span implementations.
pub struct State {
    pub visit_trait: String,
    pub visit_impl: String,
    pub visit_mut_trait: String,
    pub visit_mut_impl: String,
    pub fold_trait: String,
    pub fold_impl: String,
    pub spanned_impls: String,
}

/// A declaration that no traversal can be generated for.
pub enum GenError {
    /// A variant of a tagged union with named fields.
    StructVariant { node: String, variant: String },
}

/// The guard attributes of a node, one per line.
pub open spec fn features_text(f: Seq<String>) -> Seq<char>
    decreases f.len(),
{
    if f.len() == 0 {
        Seq::empty()
    } else {
        features_text(f.drop_last()) + f.last()@ + "\n"@
    }
}

/// The expression by which a field of a record is reached.
pub open spec fn record_operand(f: Field, idx: nat) -> Opnd {
    Opnd::Owned(
        "_i."@ + match f.name {
            Some(n) => n@,
            None => decimal_of(idx),
        },
    )
}

/// The line generated for the field at `idx` of a record.
pub open spec fn record_line(kind: Kind, items: Seq<AstItem>, f: Field, idx: nat) -> Seq<char> {
    let code = render_field(f.ty, items, kind, record_operand(f, idx));
    if kind == Kind::Fold {
        "        "@ + match f.name {
            Some(n) => n@ + ": "@,
            None => Seq::empty(),
        } + code + ",\n"@
    } else {
        "    "@ + code + ";\n"@
    }
}

/// The lines generated for the fields of a record, in order.
pub open spec fn record_lines(kind: Kind, items: Seq<AstItem>, fs: Seq<Field>) -> Seq<char>
    decreases fs.len(),
{
    if fs.len() == 0 {
        Seq::empty()
    } else {
        record_lines(kind, items, fs.drop_last()) + record_line(
            kind,
            items,
            fs.last(),
            (fs.len() - 1) as nat,
        )
    }
}

/// The body of a record's traversal.
pub open spec fn record_body(kind: Kind, items: Seq<AstItem>, name: Seq<char>, fields: Fields) -> Seq<
    char,
> {
    match fields {
        Fields::Named(fs) => if kind == Kind::Fold {
            "    "@ + name + " {\n"@ + record_lines(kind, items, fs@) + "    }\n"@
        } else {
            record_lines(kind, items, fs@)
        },
        Fields::Unnamed(fs) => if kind == Kind::Fold {
            "    "@ + name + " (\n"@ + record_lines(kind, items, fs@) + "    )\n"@
        } else {
            record_lines(kind, items, fs@)
        },
        Fields::Unit => if kind == Kind::Fold {
            "    _i\n"@
        } else {
            Seq::empty()
        },
    }
}

/// The name bound to the payload at `idx` of a variant.
pub open spec fn binding_of(idx: nat) -> Seq<char> {
    "_binding_"@ + decimal_of(idx)
}

/// The pattern that binds the payload at `idx`.
pub open spec fn binding_pat(kind: Kind, idx: nat) -> Seq<char> {
    match kind {
        Kind::Visit => "ref "@ + binding_of(idx) + ", "@,
        Kind::VisitMut => "ref mut "@ + binding_of(idx) + ", "@,
        Kind::Fold => binding_of(idx) + ", "@,
    }
}

/// The patterns that bind the first `n` payloads.
pub open spec fn binding_pats(kind: Kind, n: nat) -> Seq<char>
    decreases n,
{
    if n == 0 {
        Seq::empty()
    } else {
        binding_pats(kind, (n - 1) as nat) + binding_pat(kind, (n - 1) as nat)
    }
}

/// The line generated for the payload at `idx` of a variant.
pub open spec fn variant_line(kind: Kind, items: Seq<AstItem>, f: Field, idx: nat) -> Seq<char> {
    if kind == Kind::Fold {
        "                "@ + render_field(f.ty, items, kind, Opnd::Owned(binding_of(idx))) + ",\n"@
    } else {
        "            "@ + render_field(f.ty, items, kind, Opnd::Borrowed(binding_of(idx))) + ";\n"@
    }
}

/// The lines generated for the payloads of a variant, in order.
pub open spec fn variant_lines(kind: Kind, items: Seq<AstItem>, fs: Seq<Field>) -> Seq<char>
    decreases fs.len(),
{
    if fs.len() == 0 {
        Seq::empty()
    } else {
        variant_lines(kind, items, fs.drop_last()) + variant_line(
            kind,
            items,
            fs.last(),
            (fs.len() - 1) as nat,
        )
    }
}

/// The match arm generated for a variant.
pub open spec fn variant_text(kind: Kind, items: Seq<AstItem>, v: Variant) -> Seq<char> {
    match v.fields {
        Fields::Unnamed(fs) => if kind == Kind::Fold {
            "        "@ + v.name@ + "("@ + binding_pats(kind, fs@.len()) + ") => {\n"@ + "            "@
                + v.name@ + " (\n"@ + variant_lines(kind, items, fs@) + "            )\n"@
                + "        }\n"@
        } else {
            "        "@ + v.name@ + "("@ + binding_pats(kind, fs@.len()) + ") => {\n"@
                + variant_lines(kind, items, fs@) + "        }\n"@
        },
        Fields::Unit => if kind == Kind::Fold {
            "        "@ + v.name@ + " => { "@ + v.name@ + " }\n"@
        } else {
            "        "@ + v.name@ + " => { }\n"@
        },
        Fields::Named(_) => Seq::empty(),
    }
}

/// The match arms generated for the variants, in order.
pub open spec fn variants_text(kind: Kind, items: Seq<AstItem>, vs: Seq<Variant>) -> Seq<char>
    decreases vs.len(),
{
    if vs.len() == 0 {
        Seq::empty()
    } else {
        variants_text(kind, items, vs.drop_last()) + variant_text(kind, items, vs.last())
    }
}

/// The body of a tagged union's traversal.
pub open spec fn union_body(kind: Kind, items: Seq<AstItem>, name: Seq<char>, vs: Seq<Variant>) -> Seq<
    char,
> {
    "    use ::"@ + name + "::*;\n"@ + if kind == Kind::Fold {
        "    match _i {\n"@
    } else {
        "    match *_i {\n"@
    } + variants_text(kind, items, vs) + "    }\n"@
}

/// The body of a node's traversal.
pub open spec fn body_text(kind: Kind, items: Seq<AstItem>, it: AstItem) -> Seq<char> {
    match it.shape {
        Shape::Record(fields) => record_body(kind, items, it.name@, fields),
        Shape::Union(vs) => union_body(kind, items, it.name@, vs@),
    }
}

/// The head of a node's free traversal function.
pub open spec fn impl_head(kind: Kind, u: Seq<char>, ty: Seq<char>) -> Seq<char> {
    match kind {
        Kind::Visit => "pub fn visit_"@ + u + "<'ast, V: Visitor<'ast> + ?Sized>(_visitor: &mut V, _i: &'ast "@
            + ty + ") {\n"@,
        Kind::VisitMut => "pub fn visit_"@ + u + "_mut<V: VisitorMut + ?Sized>(_visitor: &mut V, _i: &mut "@
            + ty + ") {\n"@,
        Kind::Fold => "pub fn fold_"@ + u + "<V: Folder + ?Sized>(_visitor: &mut V, _i: "@ + ty + ") -> "@
            + ty + " {\n"@,
    }
}

/// The free traversal function of a node.
pub open spec fn impl_text(kind: Kind, items: Seq<AstItem>, it: AstItem) -> Seq<char> {
    features_text(it.features@) + impl_head(kind, snake_of(it.name@), it.name@) + body_text(
        kind,
        items,
        it,
    ) + "}\n"@
}

/// The default trait method of a node, which calls its free function.
pub open spec fn trait_text(kind: Kind, it: AstItem) -> Seq<char> {
    let u = snake_of(it.name@);
    let ty = it.name@;
    features_text(it.features@) + match kind {
        Kind::Visit => "fn visit_"@ + u + "(&mut self, i: &'ast "@ + ty + ") { visit_"@ + u
            + "(self, i) }\n"@,
        Kind::VisitMut => "fn visit_"@ + u + "_mut(&mut self, i: &mut "@ + ty + ") { visit_"@ + u
            + "_mut(self, i) }\n"@,
        Kind::Fold => "fn fold_"@ + u + "(&mut self, i: "@ + ty + ") -> "@ + ty + " { fold_"@ + u
            + "(self, i) }\n"@,
    }
}

/// The span implementation of a node; none for the position marker `Span`
/// itself.
pub open spec fn spanned_text(it: AstItem) -> Seq<char> {
    let u = snake_of(it.name@);
    if it.name@ == "Span"@ {
        Seq::empty()
    } else {
        features_text(it.features@) + "impl Spanned for ::"@ + it.name@
            + " {\n    fn span(&self) -> Option<::proc_macro::Span> {\n        let mut visitor = SpanVisitor::default();\n        visitor.visit_"@
            + u + "(self);\n        visitor.span\n    }\n}\n\n"@
    }
}

/// Whether a variant has named fields.
pub open spec fn is_struct_variant(v: Variant) -> bool {
    v.fields is Named
}

/// Whether a declaration is a tagged union with a variant of named fields.
pub open spec fn has_struct_variant(it: AstItem) -> bool {
    match it.shape {
        Shape::Union(vs) => exists|j: int| 0 <= j < vs@.len() && #[trigger] is_struct_variant(vs@[j]),
        Shape::Record(_) => false,
    }
}

fn features_string(f: &Vec<String>) -> (r: String)
    ensures
        r@ == features_text(f@),
{
    let mut s = String::new();
    let mut i: usize = 0;
    while i < f.len()
        invariant
            i <= f@.len(),
            s@ == features_text(f@.subrange(0, i as int)),
        decreases f.len() - i,
    {
        assert(f@.subrange(0, i + 1).drop_last() =~= f@.subrange(0, i as int));
        s.append(f[i].as_str());
        s.append("\n");
        i = i + 1;
    }
    assert(f@.subrange(0, f@.len() as int) =~= f@);
    s
}

fn record_line_string(kind: Kind, lookup: &Lookup, f: &Field, idx: usize) -> (r: String)
    ensures
        r@ == record_line(kind, lookup.items@, *f, idx as nat),
{
    let mut place = "_i.".to_string();
    match &f.name {
        Some(n) => place.append(n.as_str()),
        None => place.append(decimal(idx).as_str()),
    }
    let op = Operand::Owned(place);
    let code = visit(&f.ty, lookup, kind, &op);
    if kind == Kind::Fold {
        let mut s = "        ".to_string();
        match &f.name {
            Some(n) => {
                s.append(n.as_str());
                s.append(": ");
            },
            None => {},
        }
        s.append(code.as_str());
        s.append(",\n");
        proof {
            if f.name is None {
                assert(s@ =~= record_line(kind, lookup.items@, *f, idx as nat));
            }
        }
        s
    } else {
        let mut s = "    ".to_string();
        s.append(code.as_str());
        s.append(";\n");
        s
    }
}

fn record_lines_string(kind: Kind, lookup: &Lookup, fs: &Vec<Field>) -> (r: String)
    ensures
        r@ == record_lines(kind, lookup.items@, fs@),
{
    let mut s = String::new();
    let mut i: usize = 0;
    while i < fs.len()
        invariant
            i <= fs@.len(),
            s@ == record_lines(kind, lookup.items@, fs@.subrange(0, i as int)),
        decreases fs.len() - i,
    {
        assert(fs@.subrange(0, i + 1).drop_last() =~= fs@.subrange(0, i as int));
        let line = record_line_string(kind, lookup, &fs[i], i);
        s.append(line.as_str());
        i = i + 1;
    }
    assert(fs@.subrange(0, fs@.len() as int) =~= fs@);
    s
}

fn record_body_string(kind: Kind, lookup: &Lookup, name: &String, fields: &Fields) -> (r: String)
    ensures
        r@ == record_body(kind, lookup.items@, name@, *fields),
{
    match fields {
        Fields::Named(fs) => {
            let lines = record_lines_string(kind, lookup, fs);
            if kind == Kind::Fold {
                let mut s = "    ".to_string();
                s.append(name.as_str());
                s.append(" {\n");
                s.append(lines.as_str());
                s.append("    }\n");
                s
            } else {
                lines
            }
        },
        Fields::Unnamed(fs) => {
            let lines = record_lines_string(kind, lookup, fs);
            if kind == Kind::Fold {
                let mut s = "    ".to_string();
                s.append(name.as_str());
                s.append(" (\n");
                s.append(lines.as_str());
                s.append("    )\n");
                s
            } else {
                lines
            }
        },
        Fields::Unit => {
            if kind == Kind::Fold {
                "    _i\n".to_string()
            } else {
                String::new()
            }
        },
    }
}

fn binding_string(idx: usize) -> (r: String)
    ensures
        r@ == binding_of(idx as nat),
{
    let mut s = "_binding_".to_string();
    s.append(decimal(idx).as_str());
    s
}

fn variant_text_string(kind: Kind, lookup: &Lookup, v: &Variant) -> (r: String)
    requires
        !is_struct_variant(*v),
    ensures
        r@ == variant_text(kind, lookup.items@, *v),
{
    match &v.fields {
        Fields::Unnamed(fs) => {
            let mut pats = String::new();
            let mut lines = String::new();
            let mut i: usize = 0;
            while i < fs.len()
                invariant
                    i <= fs@.len(),
                    pats@ == binding_pats(kind, i as nat),
                    lines@ == variant_lines(kind, lookup.items@, fs@.subrange(0, i as int)),
                decreases fs.len() - i,
            {
                assert(fs@.subrange(0, i + 1).drop_last() =~= fs@.subrange(0, i as int));
                let b = binding_string(i);
                match kind {
                    Kind::Visit => pats.append("ref "),
                    Kind::VisitMut => pats.append("ref mut "),
                    Kind::Fold => {},
                }
                pats.append(b.as_str());
                pats.append(", ");
                proof {
                    assert(pats@ =~= binding_pats(kind, (i + 1) as nat));
                }
                if kind == Kind::Fold {
                    let code = visit(&fs[i].ty, lookup, kind, &Operand::Owned(b));
                    lines.append("                ");
                    lines.append(code.as_str());
                    lines.append(",\n");
                } else {
                    let code = visit(&fs[i].ty, lookup, kind, &Operand::Borrowed(b));
                    lines.append("            ");
                    lines.append(code.as_str());
                    lines.append(";\n");
                }
                proof {
                    assert(lines@ =~= variant_lines(kind, lookup.items@, fs@.subrange(0, i + 1)));
                }
                i = i + 1;
            }
            assert(fs@.subrange(0, fs@.len() as int) =~= fs@);
            let mut s = "        ".to_string();
            s.append(v.name.as_str());
            s.append("(");
            s.append(pats.as_str());
            s.append(") => {\n");
            if kind == Kind::Fold {
                s.append("            ");
                s.append(v.name.as_str());
                s.append(" (\n");
                s.append(lines.as_str());
                s.append("            )\n");
            } else {
                s.append(lines.as_str());
            }
            s.append("        }\n");
            s
        },
        Fields::Unit => {
            let mut s = "        ".to_string();
            s.append(v.name.as_str());
            if kind == Kind::Fold {
                s.append(" => { ");
                s.append(v.name.as_str());
                s.append(" }\n");
            } else {
                s.append(" => { }\n");
            }
            s
        },
        Fields::Named(_) => String::new(),
    }
}

fn union_body_string(kind: Kind, lookup: &Lookup, name: &String, vs: &Vec<Variant>) -> (r: String)
    requires
        forall|j: int| 0 <= j < vs@.len() ==> !(#[trigger] is_struct_variant(vs@[j])),
    ensures
        r@ == union_body(kind, lookup.items@, name@, vs@),
{
    let mut arms = String::new();
    let mut i: usize = 0;
    while i < vs.len()
        invariant
            i <= vs@.len(),
            forall|j: int| 0 <= j < vs@.len() ==> !(#[trigger] is_struct_variant(vs@[j])),
            arms@ == variants_text(kind, lookup.items@, vs@.subrange(0, i as int)),
        decreases vs.len() - i,
    {
        assert(vs@.subrange(0, i + 1).drop_last() =~= vs@.subrange(0, i as int));
        let arm = variant_text_string(kind, lookup, &vs[i]);
        arms.append(arm.as_str());
        i = i + 1;
    }
    assert(vs@.subrange(0, vs@.len() as int) =~= vs@);
    let mut s = "    use ::".to_string();
    s.append(name.as_str());
    s.append("::*;\n");
    if kind == Kind::Fold {
        s.append("    match _i {\n");
    } else {
        s.append("    match *_i {\n");
    }
    s.append(arms.as_str());
    s.append("    }\n");
    s
}

fn body_string(kind: Kind, lookup: &Lookup, it: &AstItem) -> (r: String)
    requires
        !has_struct_variant(*it),
    ensures
        r@ == body_text(kind, lookup.items@, *it),
{
    match &it.shape {
        Shape::Record(fields) => record_body_string(kind, lookup, &it.name, fields),
        Shape::Union(vs) => union_body_string(kind, lookup, &it.name, vs),
    }
}

fn impl_string(kind: Kind, lookup: &Lookup, it: &AstItem, features: &String, u: &String) -> (r: String)
    requires
        !has_struct_variant(*it),
        features@ == features_text(it.features@),
        u@ == snake_of(it.name@),
    ensures
        r@ == impl_text(kind, lookup.items@, *it),
{
    let mut s = features.clone();
    match kind {
        Kind::Visit => {
            s.append("pub fn visit_");
            s.append(u.as_str());
            s.append("<'ast, V: Visitor<'ast> + ?Sized>(_visitor: &mut V, _i: &'ast ");
            s.append(it.name.as_str());
            s.append(") {\n");
        },
        Kind::VisitMut => {
            s.append("pub fn visit_");
            s.append(u.as_str());
            s.append("_mut<V: VisitorMut + ?Sized>(_visitor: &mut V, _i: &mut ");
            s.append(it.name.as_str());
            s.append(") {\n");
        },
        Kind::Fold => {
            s.append("pub fn fold_");
            s.append(u.as_str());
            s.append("<V: Folder + ?Sized>(_visitor: &mut V, _i: ");
            s.append(it.name.as_str());
            s.append(") -> ");
            s.append(it.name.as_str());
            s.append(" {\n");
        },
    }
    let body = body_string(kind, lookup, it);
    s.append(body.as_str());
    s.append("}\n");
    proof {
        assert(s@ =~= impl_text(kind, lookup.items@, *it));
    }
    s
}

fn trait_string(kind: Kind, it: &AstItem, features: &String, u: &String) -> (r: String)
    requires
        features@ == features_text(it.features@),
        u@ == snake_of(it.name@),
    ensures
        r@ == trait_text(kind, *it),
{
    let mut m: String;
    match kind {
        Kind::Visit => {
            m = "fn visit_".to_string();
            m.append(u.as_str());
            m.append("(&mut self, i: &'ast ");
            m.append(it.name.as_str());
            m.append(") { visit_");
            m.append(u.as_str());
            m.append("(self, i) }\n");
        },
        Kind::VisitMut => {
            m = "fn visit_".to_string();
            m.append(u.as_str());
            m.append("_mut(&mut self, i: &mut ");
            m.append(it.name.as_str());
            m.append(") { visit_");
            m.append(u.as_str());
            m.append("_mut(self, i) }\n");
        },
        Kind::Fold => {
            m = "fn fold_".to_string();
            m.append(u.as_str());
            m.append("(&mut self, i: ");
            m.append(it.name.as_str());
            m.append(") -> ");
            m.append(it.name.as_str());
            m.append(" { fold_");
            m.append(u.as_str());
            m.append("(self, i) }\n");
        },
    }
    let mut s = features.clone();
    s.append(m.as_str());
    s
}

fn spanned_string(it: &AstItem, features: &String, u: &String) -> (r: String)
    requires
        features@ == features_text(it.features@),
        u@ == snake_of(it.name@),
    ensures
        r@ == spanned_text(*it),
{
    if str_eq(it.name.as_str(), "Span") {
        return String::new();
    }
    let mut s = features.clone();
    s.append("impl Spanned for ::");
    s.append(it.name.as_str());
    s.append(
        " {\n    fn span(&self) -> Option<::proc_macro::Span> {\n        let mut visitor = SpanVisitor::default();\n        visitor.visit_",
    );
    s.append(u.as_str());
    s.append("(self);\n        visitor.span\n    }\n}\n\n");
    s
}

/// The first variant with named fields of a tagged union, if any.
fn struct_variant(it: &AstItem) -> (r: Option<&Variant>)
    ensures
        r is Some <==> has_struct_variant(*it),
{
    match &it.shape {
        Shape::Union(vs) => {
            let mut i: usize = 0;
            while i < vs.len()
                invariant
                    it.shape == Shape::Union(*vs),
                    i <= vs@.len(),
                    forall|j: int| 0 <= j < i ==> !(#[trigger] is_struct_variant(vs@[j])),
                decreases vs.len() - i,
            {
                if let Fields::Named(_) = &vs[i].fields {
                    assert(is_struct_variant(vs@[i as int]));
                    assert(it.shape->Union_0 == *vs);
                    assert(has_struct_variant(*it));
                    return Some(&vs[i]);
                }
                i = i + 1;
            }
            None
        },
        Shape::Record(_) => None,
    }
}

/// Each buffer of the generated text is the one before with this node's part
/// added.
pub open spec fn generated(before: State, after: State, items: Seq<AstItem>, it: AstItem) -> bool {
    &&& after.visit_trait@ == before.visit_trait@ + trait_text(Kind::Visit, it)
    &&& after.visit_mut_trait@ == before.visit_mut_trait@ + trait_text(Kind::VisitMut, it)
    &&& after.fold_trait@ == before.fold_trait@ + trait_text(Kind::Fold, it)
    &&& after.visit_impl@ == before.visit_impl@ + impl_text(Kind::Visit, items, it)
    &&& after.visit_mut_impl@ == before.visit_mut_impl@ + impl_text(Kind::VisitMut, items, it)
    &&& after.fold_impl@ == before.fold_impl@ + impl_text(Kind::Fold, items, it)
    &&& after.spanned_impls@ == before.spanned_impls@ + spanned_text(it)
}

/// Adds the traversals of the node `s` to the generated text. A tagged union
/// with a variant of named fields is refused, and nothing is added then.
pub fn generate(state: &mut State, lookup: &Lookup, s: &AstItem) -> (r: Result<(), GenError>)
    ensures
        r is Err <==> has_struct_variant(*s),
        r is Ok ==> generated(*old(state), *final(state), lookup.items@, *s),
        r is Err ==> *final(state) == *old(state),
{
    if let Some(v) = struct_variant(s) {
        return Err(GenError::StructVariant { node: s.name.clone(), variant: v.name.clone() });
    }
    let u = under_name(&s.name);
    let features = features_string(&s.features);
    state.visit_trait.append(trait_string(Kind::Visit, s, &features, &u).as_str());
    state.visit_mut_trait.append(trait_string(Kind::VisitMut, s, &features, &u).as_str());
    state.fold_trait.append(trait_string(Kind::Fold, s, &features, &u).as_str());
    state.visit_impl.append(impl_string(Kind::Visit, lookup, s, &features, &u).as_str());
    state.visit_mut_impl.append(impl_string(Kind::VisitMut, lookup, s, &features, &u).as_str());
    state.fold_impl.append(impl_string(Kind::Fold, lookup, s, &features, &u).as_str());
    state.spanned_impls.append(spanned_string(s, &features, &u).as_str());
    Ok(())
}

/// One of the buffers of the generated text.
pub ghost enum Part {
    VisitTrait,
    VisitMutTrait,
    FoldTrait,
    VisitImpl,
    VisitMutImpl,
    FoldImpl,
    Spanned,
}

/// A node's contribution to one buffer.
pub open spec fn part_text(p: Part, items: Seq<AstItem>, it: AstItem) -> Seq<char> {
    match p {
        Part::VisitTrait => trait_text(Kind::Visit, it),
        Part::VisitMutTrait => trait_text(Kind::VisitMut, it),
        Part::FoldTrait => trait_text(Kind::Fold, it),
        Part::VisitImpl => impl_text(Kind::Visit, items, it),
        Part::VisitMutImpl => impl_text(Kind::VisitMut, items, it),
        Part::FoldImpl => impl_text(Kind::Fold, items, it),
        Part::Spanned => spanned_text(it),
    }
}

/// The contributions of the nodes `nodes` to one buffer, in their order.
pub open spec fn parts_text(p: Part, items: Seq<AstItem>, nodes: Seq<AstItem>) -> Seq<char>
    decreases nodes.len(),
{
    if nodes.len() == 0 {
        Seq::empty()
    } else {
        parts_text(p, items, nodes.drop_last()) + part_text(p, items, nodes.last())
    }
}

impl State {
    /// Empty buffers.
    pub fn new() -> (r: Self)
        ensures
            forall|p: Part| #[trigger] r.part(p) == Seq::<char>::empty(),
    {
        State {
            visit_trait: String::new(),
            visit_impl: String::new(),
            visit_mut_trait: String::new(),
            visit_mut_impl: String::new(),
            fold_trait: String::new(),
            fold_impl: String::new(),
            spanned_impls: String::new(),
        }
    }

    /// The text of one buffer.
    pub open spec fn part(&self, p: Part) -> Seq<char> {
        match p {
            Part::VisitTrait => self.visit_trait@,
            Part::VisitMutTrait => self.visit_mut_trait@,
            Part::FoldTrait => self.fold_trait@,
            Part::VisitImpl => self.visit_impl@,
            Part::VisitMutImpl => self.visit_mut_impl@,
            Part::FoldImpl => self.fold_impl@,
            Part::Spanned => self.spanned_impls@,
        }
    }
}

/// Whether some declaration is a tagged union with a variant of named fields.
pub open spec fn any_struct_variant(items: Seq<AstItem>) -> bool {
    exists|i: int| 0 <= i < items.len() && #[trigger] has_struct_variant(items[i])
}

/// Generates the traversals of every node of the table, in the table's order.
/// Fails, before anything is generated, where a tagged union has a variant of
/// named fields.
pub fn generate_all(lookup: &Lookup) -> (r: Result<State, GenError>)
    ensures
        r is Err <==> any_struct_variant(lookup.items@),
        r matches Ok(st) ==> forall|p: Part|
            #[trigger] st.part(p) == parts_text(p, lookup.items@, lookup.items@),
{
    let mut i: usize = 0;
    while i < lookup.items.len()
        invariant
            i <= lookup.items@.len(),
            forall|j: int| 0 <= j < i ==> !(#[trigger] has_struct_variant(lookup.items@[j])),
        decreases lookup.items.len() - i,
    {
        if let Some(v) = struct_variant(&lookup.items[i]) {
            return Err(
                GenError::StructVariant {
                    node: lookup.items[i].name.clone(),
                    variant: v.name.clone(),
                },
            );
        }
        i = i + 1;
    }
    let mut state = State::new();
    let mut k: usize = 0;
    while k < lookup.items.len()
        invariant
            k <= lookup.items@.len(),
            forall|j: int| 0 <= j < lookup.items@.len() ==> !(#[trigger] has_struct_variant(lookup.items@[j])),
            forall|p: Part|
                #[trigger] state.part(p) == parts_text(p, lookup.items@, lookup.items@.subrange(0, k as int)),
        decreases lookup.items.len() - k,
    {
        let ghost before = state;
        let r = generate(&mut state, lookup, &lookup.items[k]);
        assert(r is Ok);
        proof {
            assert(lookup.items@.subrange(0, k + 1).drop_last() =~= lookup.items@.subrange(0, k as int));
            assert forall|p: Part|
                #[trigger] state.part(p) == parts_text(p, lookup.items@, lookup.items@.subrange(0, k + 1)) by {
                assert(state.part(p) == before.part(p) + part_text(p, lookup.items@, lookup.items@[k as int]));
            }
        }
        k = k + 1;
    }
    assert(lookup.items@.subrange(0, lookup.items@.len() as int) =~= lookup.items@);
    Ok(state)
}

} // verus!
