use vstd::prelude::*;
use crate::emit::{GenError, Part, State, any_struct_variant, generate_all, parts_text};
use crate::schema::{AstItem, Fields, Lookup, Shape};

verus! {

/// The first lines of every document.
pub const BANNER: &'static str = "// DO NOT EDIT: this file is rewritten from the node declarations on every run.\n\n";

/// The guard helper: the expression itself with the extended feature set, an
/// unreachable marker without it.
pub const FULL_MACRO: &'static str = "
#[cfg(feature = \"full\")]
macro_rules! full {
    ($e:expr) => { $e }
}

#[cfg(not(feature = \"full\"))]
macro_rules! full {
    ($e:expr) => { unreachable!() }
}
";

/// The head of the fold document, with the shape-preserving lift over `Vec`
/// and `Delimited`.
pub const FOLD_HEAD: &'static str = "//! A Folder represents an AST->AST fold; it accepts an AST piece,
//! and returns a piece of the same type.

#![cfg_attr(rustfmt, rustfmt_skip)]

// Unreachable code is emitted sometimes without the full feature.
#![allow(unreachable_code)]
#![cfg_attr(feature = \"cargo-clippy\", allow(needless_pass_by_value))]

use *;
use delimited::Delimited;
use proc_macro2::Span;

trait FoldHelper {
    type Item;
    fn lift<F>(self, f: F) -> Self where F: FnMut(Self::Item) -> Self::Item;
}

impl<T> FoldHelper for Vec<T> {
    type Item = T;
    fn lift<F>(self, f: F) -> Self where F: FnMut(Self::Item) -> Self::Item {
        self.into_iter().map(f).collect()
    }
}

impl<T, U> FoldHelper for Delimited<T, U> {
    type Item = T;
    fn lift<F>(self, mut f: F) -> Self where F: FnMut(Self::Item) -> Self::Item {
        self.into_iter().map(|elem| {
            let (t, u) = elem.into_tuple();
            (f(t), u)
        }).collect::<Vec<(T, Option<U>)>>().into()
    }
}
";

/// The documentation and head of the `Folder` trait.
pub const FOLD_TRAIT_HEAD: &'static str = "
/// AST->AST fold.
///
/// Each method of the Folder trait is a hook to be potentially overridden. Each
/// method's default implementation recursively visits the substructure of the
/// input via the `walk` functions, which perform an \"identity fold\", that
/// is, they return the same structure that they are given (for example the
/// `fold_file` method by default calls `fold::walk_file`).
pub trait Folder {
";

/// The head of the two visitor documents.
pub const VISIT_HEAD: &'static str = "//! AST walker. Each overridden visit method has full control over what
//! happens with its node, it can do its own traversal of the node's children,
//! call `visit::walk_*` to apply the default traversal algorithm, or prevent
//! deeper traversal by doing nothing.

#![cfg_attr(rustfmt, rustfmt_skip)]

#![cfg_attr(feature = \"cargo-clippy\", allow(match_same_arms))]

use *;
use proc_macro2::Span;
";

/// The documentation and head of the `Visitor` trait.
pub const VISIT_TRAIT_HEAD: &'static str = "
/// Each method of the Visitor trait is a hook to be potentially
/// overridden.  Each method's default implementation recursively visits
/// the substructure of the input via the corresponding `walk` method;
/// e.g. the `visit_mod` method by default calls `visit::walk_mod`.
pub trait Visitor<'ast> {
";

/// The documentation and head of the `VisitorMut` trait.
pub const VISIT_MUT_TRAIT_HEAD: &'static str = "
/// Each method of the VisitorMut trait is a hook to be potentially
/// overridden.  Each method's default implementation recursively visits
/// the substructure of the input via the corresponding `walk` method;
/// e.g. the `visit_mod` method by default calls `visit::walk_mod`.
pub trait VisitorMut {
";

/// The head of the span document: the trait, and the visitor that joins the
/// positions it meets.
pub const SPANNED_HEAD: &'static str = "#![cfg_attr(rustfmt, rustfmt_skip)]
#![cfg_attr(feature = \"cargo-clippy\", allow(match_same_arms))]

use visit::Visitor;

pub trait Spanned {
    /// Returns the `proc_macro::Span` of this item if it can be retrieved. When
    /// using the `Span` for error reporting, it is safe to `unwrap()` it.
    ///
    /// This method is only available when the `unstable` feature is enabled.
    fn span(&self) -> Option<::proc_macro::Span>;
}

#[derive(Default)]
struct SpanVisitor {
    span: Option<::proc_macro::Span>,
}

impl<'a> Visitor<'a> for SpanVisitor {
    fn visit_span(&mut self, sp: &'a ::proc_macro2::Span) {
        self.span = self.span.map_or(Some(sp.into_inner()), |s| s.join(sp.into_inner()));
    }
}

";

/// The closing of a trait, before the free functions.
pub const TRAIT_TAIL: &'static str = "\n}\n\n";

/// The four documents.
pub struct Artifacts {
    pub fold: String,
    pub visit: String,
    pub visit_mut: String,
    pub spanned: String,
}

/// A document: its head, the guard helper, a trait holding `methods`, then `fns`.
pub open spec fn traversal_doc(head: Seq<char>, trait_head: Seq<char>, methods: Seq<char>, fns: Seq<
    char,
>) -> Seq<char> {
    BANNER@ + head + FULL_MACRO@ + trait_head + methods + TRAIT_TAIL@ + fns + "\n"@
}

/// The span document around the span implementations.
pub open spec fn spanned_doc(impls: Seq<char>) -> Seq<char> {
    BANNER@ + SPANNED_HEAD@ + impls + "\n"@
}

fn traversal_string(head: &str, trait_head: &str, methods: &String, fns: &String) -> (r: String)
    ensures
        r@ == traversal_doc(head@, trait_head@, methods@, fns@),
{
    let mut s = BANNER.to_string();
    s.append(head);
    s.append(FULL_MACRO);
    s.append(trait_head);
    s.append(methods.as_str());
    s.append(TRAIT_TAIL);
    s.append(fns.as_str());
    s.append("\n");
    s
}

/// Assembles the four documents from the generated text.
pub fn render_artifacts(state: &State) -> (r: Artifacts)
    ensures
        r.fold@ == traversal_doc(FOLD_HEAD@, FOLD_TRAIT_HEAD@, state.fold_trait@, state.fold_impl@),
        r.visit@ == traversal_doc(VISIT_HEAD@, VISIT_TRAIT_HEAD@, state.visit_trait@, state.visit_impl@),
        r.visit_mut@ == traversal_doc(
            VISIT_HEAD@,
            VISIT_MUT_TRAIT_HEAD@,
            state.visit_mut_trait@,
            state.visit_mut_impl@,
        ),
        r.spanned@ == spanned_doc(state.spanned_impls@),
{
    let mut spanned = BANNER.to_string();
    spanned.append(SPANNED_HEAD);
    spanned.append(state.spanned_impls.as_str());
    spanned.append("\n");
    Artifacts {
        fold: traversal_string(FOLD_HEAD, FOLD_TRAIT_HEAD, &state.fold_trait, &state.fold_impl),
        visit: traversal_string(VISIT_HEAD, VISIT_TRAIT_HEAD, &state.visit_trait, &state.visit_impl),
        visit_mut: traversal_string(
            VISIT_HEAD,
            VISIT_MUT_TRAIT_HEAD,
            &state.visit_mut_trait,
            &state.visit_mut_impl,
        ),
        spanned,
    }
}

/// A terminal node: a record without fields, unguarded.
pub open spec fn is_terminal(it: AstItem, name: Seq<char>) -> bool {
    &&& it.name@ == name
    &&& it.shape == Shape::Record(Fields::Unit)
    &&& it.features@.len() == 0
    &&& !it.eos_full
}

fn terminal(name: &str) -> (r: AstItem)
    ensures
        is_terminal(r, name@),
{
    AstItem {
        name: name.to_string(),
        shape: Shape::Record(Fields::Unit),
        features: Vec::new(),
        eos_full: false,
    }
}

/// Adds the terminal nodes, the identifier and the source position, which end
/// every traversal.
pub fn add_terminal_types(lookup: &mut Lookup)
    requires
        old(lookup).wf(),
    ensures
        final(lookup).wf(),
        exists|it: AstItem| #[trigger] final(lookup).items@.contains(it) && is_terminal(it, "Ident"@),
        exists|it: AstItem| #[trigger] final(lookup).items@.contains(it) && is_terminal(it, "Span"@),
        forall|it: AstItem|
            old(lookup).items@.contains(it) && it.name@ != "Ident"@ && it.name@ != "Span"@
                ==> #[trigger] final(lookup).items@.contains(it),
{
    let ident = terminal("Ident");
    let ghost gi = ident;
    lookup.insert(ident);
    let span = terminal("Span");
    let ghost gs = span;
    lookup.insert(span);
    proof {
        reveal_strlit("Ident");
        reveal_strlit("Span");
        assert("Ident"@ != "Span"@ ) by {
            assert("Ident"@[0] != "Span"@[0]);
        }
        assert(lookup.items@.contains(gi));
        assert(lookup.items@.contains(gs));
    }
}

/// Generates the four documents for the whole table; fails, with no document,
/// where a tagged union has a variant of named fields.
pub fn generate_files(lookup: &Lookup) -> (r: Result<Artifacts, GenError>)
    ensures
        r is Err <==> any_struct_variant(lookup.items@),
        r matches Ok(a) ==> {
            let items = lookup.items@;
            &&& a.fold@ == traversal_doc(
                FOLD_HEAD@,
                FOLD_TRAIT_HEAD@,
                parts_text(Part::FoldTrait, items, items),
                parts_text(Part::FoldImpl, items, items),
            )
            &&& a.visit@ == traversal_doc(
                VISIT_HEAD@,
                VISIT_TRAIT_HEAD@,
                parts_text(Part::VisitTrait, items, items),
                parts_text(Part::VisitImpl, items, items),
            )
            &&& a.visit_mut@ == traversal_doc(
                VISIT_HEAD@,
                VISIT_MUT_TRAIT_HEAD@,
                parts_text(Part::VisitMutTrait, items, items),
                parts_text(Part::VisitMutImpl, items, items),
            )
            &&& a.spanned@ == spanned_doc(parts_text(Part::Spanned, items, items))
        },
{
    match generate_all(lookup) {
        Ok(state) => {
            assert(state.part(Part::FoldTrait) == state.fold_trait@);
            assert(state.part(Part::FoldImpl) == state.fold_impl@);
            assert(state.part(Part::VisitTrait) == state.visit_trait@);
            assert(state.part(Part::VisitImpl) == state.visit_impl@);
            assert(state.part(Part::VisitMutTrait) == state.visit_mut_trait@);
            assert(state.part(Part::VisitMutImpl) == state.visit_mut_impl@);
            assert(state.part(Part::Spanned) == state.spanned_impls@);
            Ok(render_artifacts(&state))
        },
        Err(e) => Err(e),
    }
}

} // verus!
