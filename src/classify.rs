use vstd::prelude::*;
use crate::schema::{AstItem, GenericArg, Lookup, PathSegment, TypeExpr, index_of, lemma_index_of};
use crate::text::{snake_of, str_eq, under_name};

verus! {

/// The three traversals that are generated.
#[derive(Clone, Copy, PartialEq, Eq, Structural)]
pub enum Kind {
    Visit,
    VisitMut,
    Fold,
}

/// The expression that a field is reached by in generated code: a binding that
/// is already a reference, or a place that is owned.
pub enum Operand {
    Borrowed(String),
    Owned(String),
}

/// An operand as text.
pub ghost enum Opnd {
    Borrowed(Seq<char>),
    Owned(Seq<char>),
}

pub open spec fn text_of(op: Opnd) -> Seq<char> {
    match op {
        Opnd::Borrowed(n) => n,
        Opnd::Owned(n) => n,
    }
}

pub open spec fn ref_of(op: Opnd) -> Seq<char> {
    match op {
        Opnd::Borrowed(n) => n,
        Opnd::Owned(n) => "&"@ + n,
    }
}

pub open spec fn ref_mut_of(op: Opnd) -> Seq<char> {
    match op {
        Opnd::Borrowed(n) => n,
        Opnd::Owned(n) => "&mut "@ + n,
    }
}

pub open spec fn owned_of(op: Opnd) -> Seq<char> {
    match op {
        Opnd::Borrowed(n) => "*"@ + n,
        Opnd::Owned(n) => n,
    }
}

impl View for Operand {
    type V = Opnd;

    open spec fn view(&self) -> Opnd {
        match self {
            Operand::Borrowed(n) => Opnd::Borrowed(n@),
            Operand::Owned(n) => Opnd::Owned(n@),
        }
    }
}

impl Operand {
    /// The operand's expression as written.
    pub fn tokens(&self) -> (r: &String)
        ensures
            r@ == text_of(self@),
    {
        match self {
            Operand::Borrowed(n) => n,
            Operand::Owned(n) => n,
        }
    }

    /// The operand as a shared reference.
    pub fn ref_tokens(&self) -> (r: String)
        ensures
            r@ == ref_of(self@),
    {
        match self {
            Operand::Borrowed(n) => n.clone(),
            Operand::Owned(n) => {
                let mut s = "&".to_string();
                s.append(n.as_str());
                s
            },
        }
    }

    /// The operand as a mutable reference.
    pub fn ref_mut_tokens(&self) -> (r: String)
        ensures
            r@ == ref_mut_of(self@),
    {
        match self {
            Operand::Borrowed(n) => n.clone(),
            Operand::Owned(n) => {
                let mut s = "&mut ".to_string();
                s.append(n.as_str());
                s
            },
        }
    }

    /// The operand as an owned value.
    pub fn owned_tokens(&self) -> (r: String)
        ensures
            r@ == owned_of(self@),
    {
        match self {
            Operand::Borrowed(n) => {
                let mut s = "*".to_string();
                s.append(n.as_str());
                s
            },
            Operand::Owned(n) => n.clone(),
        }
    }
}

/// The container that a field's node sits in.
#[derive(Clone, Copy, PartialEq, Eq, Structural)]
pub enum ListKind {
    Plain,
    Vec,
    Delimited,
}

/// How a field is traversed: the node it reaches (its position in the lookup
/// table) and the wrappers around it, outermost first: an `Option`, a `Vec` or
/// `Delimited`, a `Box`.
#[derive(Clone, Copy, PartialEq, Eq, Structural)]
pub struct Strategy {
    pub node: usize,
    pub boxed: bool,
    pub list: ListKind,
    pub optional: bool,
}

/// The last segment of a path type that has one.
pub open spec fn last_seg(ty: TypeExpr) -> Option<PathSegment> {
    match ty {
        TypeExpr::Path(segs) => if segs@.len() > 0 {
            Some(segs@.last())
        } else {
            None
        },
        TypeExpr::Other => None,
    }
}

/// The first generic argument of a segment, where it is a type.
pub open spec fn first_ty(seg: PathSegment) -> Option<TypeExpr> {
    if seg.args@.len() > 0 {
        match seg.args@[0] {
            GenericArg::Type(t) => Some(t),
            GenericArg::Other => None,
        }
    } else {
        None
    }
}

/// The last segment of the first type argument of a segment.
pub open spec fn inner_seg(seg: PathSegment) -> Option<PathSegment> {
    match first_ty(seg) {
        Some(t) => last_seg(t),
        None => None,
    }
}

/// A segment that names a node.
pub open spec fn class_simple(seg: PathSegment, items: Seq<AstItem>) -> Option<Strategy> {
    match index_of(items, seg.ident@) {
        Some(i) => Some(Strategy { node: i as usize, boxed: false, list: ListKind::Plain, optional: false }),
        None => None,
    }
}

/// A node, or a node in a `Box`.
pub open spec fn class_box(seg: PathSegment, items: Seq<AstItem>) -> Option<Strategy> {
    if class_simple(seg, items) is Some {
        class_simple(seg, items)
    } else if seg.ident@ == "Box"@ {
        match inner_seg(seg) {
            Some(s) => match class_simple(s, items) {
                Some(st) => Some(Strategy { boxed: true, ..st }),
                None => None,
            },
            None => None,
        }
    } else {
        None
    }
}

/// What `class_box` takes, or that in a `Vec` or a `Delimited`.
pub open spec fn class_list(seg: PathSegment, items: Seq<AstItem>) -> Option<Strategy> {
    if class_box(seg, items) is Some {
        class_box(seg, items)
    } else if seg.ident@ == "Vec"@ || seg.ident@ == "Delimited"@ {
        match inner_seg(seg) {
            Some(s) => match class_box(s, items) {
                Some(st) => Some(
                    Strategy {
                        list: if seg.ident@ == "Vec"@ {
                            ListKind::Vec
                        } else {
                            ListKind::Delimited
                        },
                        ..st
                    },
                ),
                None => None,
            },
            None => None,
        }
    } else {
        None
    }
}

/// What `class_list` takes, or that in an `Option`.
pub open spec fn class_option(seg: PathSegment, items: Seq<AstItem>) -> Option<Strategy> {
    if class_list(seg, items) is Some {
        class_list(seg, items)
    } else if seg.ident@ == "Option"@ {
        match inner_seg(seg) {
            Some(s) => match class_list(s, items) {
                Some(st) => Some(Strategy { optional: true, ..st }),
                None => None,
            },
            None => None,
        }
    } else {
        None
    }
}

/// How a field of type `ty` is traversed; `None` where it is skipped.
pub open spec fn classify(ty: TypeExpr, items: Seq<AstItem>) -> Option<Strategy> {
    match last_seg(ty) {
        Some(s) => class_option(s, items),
        None => None,
    }
}

/// The call of a node's traversal on an operand.
pub open spec fn render_node(kind: Kind, name: Seq<char>, op: Opnd) -> Seq<char> {
    match kind {
        Kind::Visit => "_visitor.visit_"@ + snake_of(name) + "("@ + ref_of(op) + ")"@,
        Kind::VisitMut => "_visitor.visit_"@ + snake_of(name) + "_mut("@ + ref_mut_of(op) + ")"@,
        Kind::Fold => "_visitor.fold_"@ + snake_of(name) + "("@ + owned_of(op) + ")"@,
    }
}

/// A node's traversal, through a `Box` where `boxed`.
pub open spec fn render_box(kind: Kind, name: Seq<char>, boxed: bool, op: Opnd) -> Seq<char> {
    if boxed && kind == Kind::Fold {
        "Box::new("@ + render_node(kind, name, Opnd::Owned("*"@ + text_of(op))) + ")"@
    } else {
        render_node(kind, name, op)
    }
}

/// The operand that a container's element is bound to.
pub open spec fn it_operand(kind: Kind) -> Opnd {
    if kind == Kind::Fold {
        Opnd::Owned("it"@)
    } else {
        Opnd::Borrowed("it"@)
    }
}

/// A traversal through the container of `st`, if any.
pub open spec fn render_list(kind: Kind, name: Seq<char>, st: Strategy, op: Opnd) -> Seq<char> {
    let val = render_box(kind, name, st.boxed, it_operand(kind));
    match st.list {
        ListKind::Plain => render_box(kind, name, st.boxed, op),
        ListKind::Vec => match kind {
            Kind::Visit => "for it in "@ + ref_of(op) + " { "@ + val + " }"@,
            Kind::VisitMut => "for it in "@ + ref_mut_of(op) + " { "@ + val + " }"@,
            Kind::Fold => "FoldHelper::lift("@ + owned_of(op) + ", |it| { "@ + val + " })"@,
        },
        ListKind::Delimited => match kind {
            Kind::Visit => "for el in "@ + ref_of(op) + " { let it = el.item(); "@ + val + " }"@,
            Kind::VisitMut => "for mut el in "@ + ref_mut_of(op) + " { let it = el.item_mut(); "@
                + val + " }"@,
            Kind::Fold => "FoldHelper::lift("@ + owned_of(op) + ", |it| { "@ + val + " })"@,
        },
    }
}

/// A traversal through the `Option` of `st`, if any.
pub open spec fn render_option(kind: Kind, name: Seq<char>, st: Strategy, op: Opnd) -> Seq<char> {
    if !st.optional {
        render_list(kind, name, st, op)
    } else {
        let val = render_list(kind, name, st, it_operand(kind));
        match kind {
            Kind::Visit => "if let Some(ref it) = "@ + owned_of(op) + " { "@ + val + " }"@,
            Kind::VisitMut => "if let Some(ref mut it) = "@ + owned_of(op) + " { "@ + val + " }"@,
            Kind::Fold => "("@ + owned_of(op) + ").map(|it| { "@ + val + " })"@,
        }
    }
}

/// The generated statement (or, for the fold, expression) for a field of type
/// `ty` reached by `op`. An unresolved field is skipped by the visitors and
/// passed through unchanged by the fold.
pub open spec fn render_field(ty: TypeExpr, items: Seq<AstItem>, kind: Kind, op: Opnd) -> Seq<char> {
    match classify(ty, items) {
        Some(st) => {
            let res = render_option(kind, items[st.node as int].name@, st, op);
            if items[st.node as int].eos_full {
                "full!("@ + res + ")"@
            } else {
                res
            }
        },
        None => if kind == Kind::Fold {
            owned_of(op)
        } else {
            "// Skipped field "@ + text_of(op)
        },
    }
}

/// The last segment of a path type.
pub fn last_segment(ty: &TypeExpr) -> (r: Option<&PathSegment>)
    ensures
        match r {
            Some(s) => last_seg(*ty) == Some(*s),
            None => last_seg(*ty) is None,
        },
{
    match ty {
        TypeExpr::Path(segs) => {
            if segs.len() > 0 {
                Some(&segs[segs.len() - 1])
            } else {
                None
            }
        },
        TypeExpr::Other => None,
    }
}

/// The first generic argument of a segment, where it is a type.
pub fn first_arg(seg: &PathSegment) -> (r: Option<&TypeExpr>)
    ensures
        match r {
            Some(t) => first_ty(*seg) == Some(*t),
            None => first_ty(*seg) is None,
        },
{
    if seg.args.len() > 0 {
        match &seg.args[0] {
            GenericArg::Type(t) => Some(t),
            GenericArg::Other => None,
        }
    } else {
        None
    }
}

fn inner_segment(seg: &PathSegment) -> (r: Option<&PathSegment>)
    ensures
        match r {
            Some(s) => inner_seg(*seg) == Some(*s),
            None => inner_seg(*seg) is None,
        },
{
    match first_arg(seg) {
        Some(t) => last_segment(t),
        None => None,
    }
}

/// The flag of the node that a classified field reaches.
pub open spec fn full_of(st: Option<Strategy>, items: Seq<AstItem>, before: bool) -> bool {
    match st {
        Some(st) => items[st.node as int].eos_full,
        None => before,
    }
}

/// The call of the traversal of the node named `node_name`, if the table has it;
/// `eos_full` takes that node's flag.
pub fn simple_visit(
    node_name: &String,
    lookup: &Lookup,
    kind: Kind,
    name: &Operand,
    eos_full: &mut bool,
) -> (r: Option<String>)
    ensures
        lookup.items@.len() <= usize::MAX,
        r is Some <==> index_of(lookup.items@, node_name@) is Some,
        match index_of(lookup.items@, node_name@) {
            Some(i) => r matches Some(s) && s@ == render_node(kind, node_name@, name@)
                && *final(eos_full) == lookup.items@[i].eos_full,
            None => *final(eos_full) == *old(eos_full),
        },
{
    match lookup.find(node_name.as_str()) {
        Some(i) => {
            *eos_full = lookup.items[i].eos_full;
            let u = under_name(node_name);
            let mut s: String;
            match kind {
                Kind::Visit => {
                    s = "_visitor.visit_".to_string();
                    s.append(u.as_str());
                    s.append("(");
                    s.append(name.ref_tokens().as_str());
                },
                Kind::VisitMut => {
                    s = "_visitor.visit_".to_string();
                    s.append(u.as_str());
                    s.append("_mut(");
                    s.append(name.ref_mut_tokens().as_str());
                },
                Kind::Fold => {
                    s = "_visitor.fold_".to_string();
                    s.append(u.as_str());
                    s.append("(");
                    s.append(name.owned_tokens().as_str());
                },
            }
            s.append(")");
            Some(s)
        },
        None => None,
    }
}

proof fn lemma_simple(seg: PathSegment, items: Seq<AstItem>)
    requires
        items.len() <= usize::MAX,
    ensures
        class_simple(seg, items) matches Some(st) ==> 0 <= st.node < items.len()
            && items[st.node as int].name@ == seg.ident@
            && index_of(items, seg.ident@) == Some(st.node as int),
{
    lemma_index_of(items, seg.ident@);
}

/// A node's traversal, or one through a `Box` around a node.
pub fn box_visit(
    seg: &PathSegment,
    lookup: &Lookup,
    kind: Kind,
    name: &Operand,
    eos_full: &mut bool,
) -> (r: Option<String>)
    ensures
        r is Some <==> class_box(*seg, lookup.items@) is Some,
        match class_box(*seg, lookup.items@) {
            Some(st) => r matches Some(s) && s@ == render_box(
                kind,
                lookup.items@[st.node as int].name@,
                st.boxed,
                name@,
            ),
            None => true,
        },
        *final(eos_full) == full_of(class_box(*seg, lookup.items@), lookup.items@, *old(eos_full)),
{
    let found = simple_visit(&seg.ident, lookup, kind, name, eos_full);
    proof {
        lemma_simple(*seg, lookup.items@);
    }
    if let Some(res) = found {
        return Some(res);
    }
    if str_eq(seg.ident.as_str(), "Box") {
        if let Some(inner) = inner_segment(seg) {
            proof {
                lemma_simple(*inner, lookup.items@);
            }
            if kind == Kind::Fold {
                let mut star = "*".to_string();
                star.append(name.tokens().as_str());
                let owned = Operand::Owned(star);
                if let Some(val) = simple_visit(&inner.ident, lookup, kind, &owned, eos_full) {
                    let mut s = "Box::new(".to_string();
                    s.append(val.as_str());
                    s.append(")");
                    return Some(s);
                }
            } else {
                return simple_visit(&inner.ident, lookup, kind, name, eos_full);
            }
        }
    }
    None
}

/// What `box_visit` gives, or a traversal of each element of a `Vec` or a
/// `Delimited` of such.
pub fn vec_visit(
    seg: &PathSegment,
    lookup: &Lookup,
    kind: Kind,
    name: &Operand,
    eos_full: &mut bool,
) -> (r: Option<String>)
    ensures
        r is Some <==> class_list(*seg, lookup.items@) is Some,
        match class_list(*seg, lookup.items@) {
            Some(st) => r matches Some(s) && s@ == render_list(
                kind,
                lookup.items@[st.node as int].name@,
                st,
                name@,
            ),
            None => true,
        },
        *final(eos_full) == full_of(class_list(*seg, lookup.items@), lookup.items@, *old(eos_full)),
{
    if let Some(res) = box_visit(seg, lookup, kind, name, eos_full) {
        return Some(res);
    }
    let is_vec = str_eq(seg.ident.as_str(), "Vec");
    if is_vec || str_eq(seg.ident.as_str(), "Delimited") {
        if let Some(inner) = inner_segment(seg) {
            let operand = if kind == Kind::Fold {
                Operand::Owned("it".to_string())
            } else {
                Operand::Borrowed("it".to_string())
            };
            if let Some(val) = box_visit(inner, lookup, kind, &operand, eos_full) {
                let mut s: String;
                match kind {
                    Kind::Visit => {
                        if is_vec {
                            s = "for it in ".to_string();
                            s.append(name.ref_tokens().as_str());
                            s.append(" { ");
                        } else {
                            s = "for el in ".to_string();
                            s.append(name.ref_tokens().as_str());
                            s.append(" { let it = el.item(); ");
                        }
                        s.append(val.as_str());
                        s.append(" }");
                    },
                    Kind::VisitMut => {
                        if is_vec {
                            s = "for it in ".to_string();
                            s.append(name.ref_mut_tokens().as_str());
                            s.append(" { ");
                        } else {
                            s = "for mut el in ".to_string();
                            s.append(name.ref_mut_tokens().as_str());
                            s.append(" { let it = el.item_mut(); ");
                        }
                        s.append(val.as_str());
                        s.append(" }");
                    },
                    Kind::Fold => {
                        s = "FoldHelper::lift(".to_string();
                        s.append(name.owned_tokens().as_str());
                        s.append(", |it| { ");
                        s.append(val.as_str());
                        s.append(" })");
                    },
                }
                return Some(s);
            }
        }
    }
    None
}

/// What `vec_visit` gives, or a traversal of the value of an `Option` of such.
pub fn option_visit(
    seg: &PathSegment,
    lookup: &Lookup,
    kind: Kind,
    name: &Operand,
    eos_full: &mut bool,
) -> (r: Option<String>)
    ensures
        r is Some <==> class_option(*seg, lookup.items@) is Some,
        match class_option(*seg, lookup.items@) {
            Some(st) => r matches Some(s) && s@ == render_option(
                kind,
                lookup.items@[st.node as int].name@,
                st,
                name@,
            ),
            None => true,
        },
        *final(eos_full) == full_of(class_option(*seg, lookup.items@), lookup.items@, *old(eos_full)),
{
    if let Some(res) = vec_visit(seg, lookup, kind, name, eos_full) {
        return Some(res);
    }
    if str_eq(seg.ident.as_str(), "Option") {
        if let Some(inner) = inner_segment(seg) {
            let it = if kind == Kind::Fold {
                Operand::Owned("it".to_string())
            } else {
                Operand::Borrowed("it".to_string())
            };
            if let Some(val) = vec_visit(inner, lookup, kind, &it, eos_full) {
                let mut s: String;
                match kind {
                    Kind::Visit => {
                        s = "if let Some(ref it) = ".to_string();
                        s.append(name.owned_tokens().as_str());
                        s.append(" { ");
                        s.append(val.as_str());
                        s.append(" }");
                    },
                    Kind::VisitMut => {
                        s = "if let Some(ref mut it) = ".to_string();
                        s.append(name.owned_tokens().as_str());
                        s.append(" { ");
                        s.append(val.as_str());
                        s.append(" }");
                    },
                    Kind::Fold => {
                        s = "(".to_string();
                        s.append(name.owned_tokens().as_str());
                        s.append(").map(|it| { ");
                        s.append(val.as_str());
                        s.append(" })");
                    },
                }
                return Some(s);
            }
        }
    }
    None
}

/// The generated code for a field of type `ty` reached by `name`.
pub fn visit(ty: &TypeExpr, lookup: &Lookup, kind: Kind, name: &Operand) -> (r: String)
    ensures
        r@ == render_field(*ty, lookup.items@, kind, name@),
{
    if let Some(seg) = last_segment(ty) {
        let mut eos_full = false;
        if let Some(res) = option_visit(seg, lookup, kind, name, &mut eos_full) {
            if eos_full {
                let mut s = "full!(".to_string();
                s.append(res.as_str());
                s.append(")");
                return s;
            }
            return res;
        }
    }
    if kind == Kind::Fold {
        return name.owned_tokens();
    }
    let mut s = "// Skipped field ".to_string();
    s.append(name.tokens().as_str());
    s
}

} // verus!
