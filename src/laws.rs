use vstd::prelude::*;
use crate::classify::{Kind, Opnd, classify, owned_of, render_field, text_of};
use crate::emit::{Part, features_text, impl_text, parts_text, spanned_text, trait_text};
use crate::extract::{EntrySpec, cfg_texts, holds_guards, item_at};
use crate::tokens::Tok;
use crate::schema::{AstItem, Lookup, lemma_seq_lt_irrefl, lemma_seq_lt_trans, names_sorted, seq_lt};
use crate::text::snake_of;

verus! {

proof fn lemma_sorted_same_items(a: Seq<AstItem>, b: Seq<AstItem>)
    requires
        names_sorted(a),
        names_sorted(b),
        forall|x: AstItem| a.contains(x) <==> b.contains(x),
    ensures
        a == b,
    decreases a.len(),
{
    if a.len() == 0 {
        if b.len() > 0 {
            assert(b.contains(b[0]));
        }
        assert(a =~= b);
    } else {
        assert(a.contains(a[0]));
        assert(b.contains(a[0]));
        let k = choose|k: int| 0 <= k < b.len() && b[k] == a[0];
        assert(b.contains(b[0]));
        let m = choose|m: int| 0 <= m < a.len() && a[m] == b[0];
        if k > 0 {
            assert(seq_lt(b[0].name@, b[k].name@));
            if m > 0 {
                assert(seq_lt(a[0].name@, a[m].name@));
                lemma_seq_lt_trans(a[0].name@, b[0].name@, a[0].name@);
                lemma_seq_lt_irrefl(a[0].name@);
            } else {
                lemma_seq_lt_irrefl(b[0].name@);
            }
        }
        assert(b[0] == a[0]);
        let a1 = a.drop_first();
        let b1 = b.drop_first();
        assert forall|x: AstItem| a1.contains(x) <==> b1.contains(x) by {
            if a1.contains(x) {
                let i = choose|i: int| 0 <= i < a1.len() && a1[i] == x;
                assert(a[i + 1] == x);
                assert(seq_lt(a[0].name@, x.name@));
                assert(b.contains(x));
                let j = choose|j: int| 0 <= j < b.len() && b[j] == x;
                if j == 0 {
                    lemma_seq_lt_irrefl(x.name@);
                }
                assert(b1[j - 1] == x);
            }
            if b1.contains(x) {
                let i = choose|i: int| 0 <= i < b1.len() && b1[i] == x;
                assert(b[i + 1] == x);
                assert(seq_lt(b[0].name@, x.name@));
                assert(a.contains(x));
                let j = choose|j: int| 0 <= j < a.len() && a[j] == x;
                if j == 0 {
                    lemma_seq_lt_irrefl(x.name@);
                }
                assert(a1[j - 1] == x);
            }
        }
        lemma_sorted_same_items(a1, b1);
        assert(a =~= seq![a[0]] + a1);
        assert(b =~= seq![b[0]] + b1);
    }
}

/// Generation does not depend on the order in which declarations were found:
/// two well-formed tables that hold the same declarations are the same table,
/// and every generated buffer is the same text for both.
pub proof fn lemma_generation_deterministic(a: Lookup, b: Lookup)
    requires
        a.wf(),
        b.wf(),
        forall|x: AstItem| a.items@.contains(x) <==> b.items@.contains(x),
    ensures
        a.items@ == b.items@,
        forall|p: Part| #[trigger] parts_text(p, a.items@, a.items@) == parts_text(p, b.items@, b.items@),
{
    lemma_sorted_same_items(a.items@, b.items@);
}

proof fn lemma_features_text_concat(x: Seq<String>, y: Seq<String>)
    ensures
        features_text(x + y) == features_text(x) + features_text(y),
    decreases y.len(),
{
    if y.len() == 0 {
        assert(x + y =~= x);
        assert(features_text(y) =~= Seq::<char>::empty());
        assert(features_text(x) + features_text(y) =~= features_text(x));
    } else {
        lemma_features_text_concat(x, y.drop_last());
        assert((x + y).drop_last() =~= x + y.drop_last());
        assert((x + y).last() == y.last());
        assert(features_text(x + y) =~= features_text(x) + features_text(y));
    }
}

/// `part` stands, whole, in `t`.
pub open spec fn contains_text(t: Seq<char>, part: Seq<char>) -> bool {
    exists|k: int| 0 <= k && k + part.len() <= t.len() && #[trigger] t.subrange(k, k + part.len()) == part
}

proof fn lemma_guards_in_head(f: Seq<String>, outer: Seq<String>, rest: Seq<char>)
    requires
        holds_guards(f, outer),
    ensures
        contains_text(features_text(f) + rest, features_text(outer)),
{
    let k = choose|k: int| 0 <= k && k + outer.len() <= f.len() && #[trigger] f.subrange(k, k + outer.len()) == outer;
    let pre = f.subrange(0, k);
    let post = f.subrange(k + outer.len(), f.len() as int);
    assert(f =~= pre + outer + post);
    lemma_features_text_concat(pre + outer, post);
    lemma_features_text_concat(pre, outer);
    let t = features_text(f) + rest;
    let s = features_text(pre).len() as int;
    let ft = features_text(outer);
    assert(t.subrange(s, s + ft.len()) =~= ft);
}

/// The guards of a node reach every function generated for it: where a node
/// was read under the guards `outer` (those of its module, then those of its
/// invocation), their text stands, whole and in order, in the trait method and
/// the free function of each traversal, and in its span implementation.
pub proof fn lemma_guards_propagate(items: Seq<AstItem>, it: AstItem, outer: Seq<String>)
    requires
        holds_guards(it.features@, outer),
    ensures
        forall|kind: Kind|
            #![trigger trait_text(kind, it)]
            #![trigger impl_text(kind, items, it)]
            contains_text(trait_text(kind, it), features_text(outer)) && contains_text(
                impl_text(kind, items, it),
                features_text(outer),
            ),
        it.name@ != "Span"@ ==> contains_text(spanned_text(it), features_text(outer)),
{
    let ft = features_text(it.features@);
    assert forall|kind: Kind|
        #![trigger trait_text(kind, it)]
        #![trigger impl_text(kind, items, it)]
        contains_text(trait_text(kind, it), features_text(outer)) && contains_text(
            impl_text(kind, items, it),
            features_text(outer),
        ) by {
        let tr = trait_text(kind, it);
        let rest_t = tr.subrange(ft.len() as int, tr.len() as int);
        assert(tr =~= ft + rest_t);
        lemma_guards_in_head(it.features@, outer, rest_t);
        let im = impl_text(kind, items, it);
        let rest_i = im.subrange(ft.len() as int, im.len() as int);
        assert(im =~= ft + rest_i);
        lemma_guards_in_head(it.features@, outer, rest_i);
    }
    if it.name@ != "Span"@ {
        let sp = spanned_text(it);
        let rest_s = sp.subrange(ft.len() as int, sp.len() as int);
        assert(sp =~= ft + rest_s);
        lemma_guards_in_head(it.features@, outer, rest_s);
    }
}

/// The traversals never fail on a field they cannot resolve: the fold hands
/// such a field on unchanged and the two visitors leave a comment in place of
/// a visit.
pub proof fn lemma_unresolved_passthrough(ty: crate::schema::TypeExpr, items: Seq<AstItem>, op: Opnd)
    requires
        classify(ty, items) is None,
    ensures
        render_field(ty, items, Kind::Fold, op) == owned_of(op),
        render_field(ty, items, Kind::Visit, op) == "// Skipped field "@ + text_of(op),
        render_field(ty, items, Kind::VisitMut, op) == "// Skipped field "@ + text_of(op),
{
}

/// `f` ends with the guards `g`.
pub open spec fn ends_with_guards(f: Seq<Seq<char>>, g: Seq<Seq<char>>) -> bool {
    f.len() >= g.len() && f.subrange(f.len() - g.len(), f.len() as int) == g
}

/// Guards accumulate as a conjunction: each declaration that an invocation
/// gives, in a file read under the guards `outer` (those of its module), ends
/// with `outer` followed by the invocation's own `cfg` attributes; none is
/// dropped.
pub proof fn lemma_nested_guards(toks: Seq<Tok>, i: int, n: int, outer: Seq<Seq<char>>)
    ensures
        item_at(toks, i, n, outer) matches Ok((more, _)) ==> forall|e: int|
            0 <= e < more.len() ==> (#[trigger] more[e] matches EntrySpec::Items(ss) ==> forall|k: int|
                0 <= k < ss.len() ==> ends_with_guards(#[trigger] ss[k].features, outer + cfg_texts(toks, i, n))),
{
    reveal(item_at);
    let g = outer + cfg_texts(toks, i, n);
    match item_at(toks, i, n, outer) {
        Ok((more, _)) => {
            assert forall|e: int| 0 <= e < more.len() implies (#[trigger] more[e] matches EntrySpec::Items(ss)
                ==> forall|k: int| 0 <= k < ss.len() ==> ends_with_guards(#[trigger] ss[k].features, g)) by {
                match more[e] {
                    EntrySpec::Items(ss) => {
                        assert forall|k: int| 0 <= k < ss.len() implies ends_with_guards(#[trigger] ss[k].features, g) by {
                            let f = ss[k].features;
                            assert(f.subrange(f.len() - g.len(), f.len() as int) =~= g);
                        }
                    },
                    _ => {},
                }
            }
        },
        Err(_) => {},
    }
}

} // verus!
