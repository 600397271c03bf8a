use vstd::prelude::*;
use crate::schema::{AstItem, Field, Fields, GenericArg, PathSegment, Shape, TypeExpr, Variant};
use crate::tokens::{
    Delim, Tok, group_close, group_end, ident_at, is_ident, is_open, is_punct, open_at, punct_at,
    toks_string, toks_text,
};

verus! {

/// The guard of the nodes marked `#full`.
pub const FULL_CFG: &'static str = "#[cfg(feature = \"full\")]";

/// The `>` at `k` is part of an arrow (`->` or `=>`) rather than a bracket.
pub open spec fn after_arrow(toks: Seq<Tok>, start: int, k: int) -> bool {
    k > start && (punct_at(toks, k - 1, '-') || punct_at(toks, k - 1, '='))
}

/// The position of the `>` that closes the `<` at `start`, scanning from `k`
/// with `depth` angle brackets open.
pub open spec fn angle_from(toks: Seq<Tok>, start: int, k: int, hi: int, depth: nat) -> Option<int>
    decreases hi - k,
{
    if k < 0 || k >= hi || k >= toks.len() {
        None
    } else {
        match toks[k] {
            Tok::Punct(c) => if c == '<' {
                angle_from(toks, start, k + 1, hi, depth + 1)
            } else if c == '>' && !after_arrow(toks, start, k) {
                if depth <= 1 {
                    if k > start {
                        Some(k)
                    } else {
                        None
                    }
                } else {
                    angle_from(toks, start, k + 1, hi, (depth - 1) as nat)
                }
            } else {
                angle_from(toks, start, k + 1, hi, depth)
            },
            Tok::Open(_) => match group_close(toks, k, hi) {
                Some(e) => if k < e < hi {
                    angle_from(toks, start, e + 1, hi, depth)
                } else {
                    None
                },
                None => None,
            },
            _ => angle_from(toks, start, k + 1, hi, depth),
        }
    }
}

/// The position of the `>` that closes the `<` at `i`, if before `hi`.
fn angle_end(toks: &Vec<Tok>, i: usize, hi: usize) -> (r: Option<usize>)
    requires
        i <= hi <= toks@.len(),
    ensures
        match r {
            Some(e) => angle_from(toks@, i as int, i as int, hi as int, 0) == Some(e as int),
            None => angle_from(toks@, i as int, i as int, hi as int, 0) is None,
        },
        r matches Some(e) ==> i < e < hi,
{
    let mut depth: usize = 0;
    let mut k: usize = i;
    while k < hi
        invariant
            i <= k <= hi,
            hi <= toks@.len(),
            depth <= k - i,
            angle_from(toks@, i as int, i as int, hi as int, 0) == angle_from(
                toks@,
                i as int,
                k as int,
                hi as int,
                depth as nat,
            ),
        decreases hi - k,
    {
        let mut next = k + 1;
        match &toks[k] {
            Tok::Punct(c) => {
                if *c == '<' {
                    depth = depth + 1;
                } else if *c == '>' && !(k > i && (is_punct(toks, k - 1, hi, '-') || is_punct(toks, k - 1, hi, '='))) {
                    if depth <= 1 {
                        if k > i {
                            return Some(k);
                        }
                        return None;
                    }
                    depth = depth - 1;
                }
            },
            Tok::Open(_) => {
                match group_end(toks, k, hi) {
                    Some(e) => {
                        next = e + 1;
                    },
                    None => return None,
                }
            },
            _ => {},
        }
        if next > k + 1 {
            assert(depth <= next - i);
        }
        k = next;
    }
    None
}

/// The first `,` outside any group and angle brackets at or after `k`, with
/// `depth` angle brackets open, or `hi`.
pub open spec fn list_end_from(toks: Seq<Tok>, lo: int, k: int, hi: int, depth: nat) -> int
    decreases hi - k,
{
    if k < 0 || k >= hi || k >= toks.len() {
        hi
    } else {
        match toks[k] {
            Tok::Punct(c) => if c == ',' && depth == 0 {
                k
            } else if c == '<' {
                list_end_from(toks, lo, k + 1, hi, depth + 1)
            } else if c == '>' && depth > 0 && !after_arrow(toks, lo, k) {
                list_end_from(toks, lo, k + 1, hi, (depth - 1) as nat)
            } else {
                list_end_from(toks, lo, k + 1, hi, depth)
            },
            Tok::Open(_) => match group_close(toks, k, hi) {
                Some(e) => if k < e < hi {
                    list_end_from(toks, lo, e + 1, hi, depth)
                } else {
                    hi
                },
                None => list_end_from(toks, lo, k + 1, hi, depth),
            },
            _ => list_end_from(toks, lo, k + 1, hi, depth),
        }
    }
}

/// The end of the list element that starts at `lo`.
pub open spec fn list_end(toks: Seq<Tok>, lo: int, hi: int) -> int {
    list_end_from(toks, lo, lo, hi, 0)
}

/// The end of the list element that starts at `lo`: the first `,` outside any
/// group and angle brackets, or `hi`.
pub fn item_end(toks: &Vec<Tok>, lo: usize, hi: usize) -> (r: usize)
    requires
        lo <= hi <= toks@.len(),
    ensures
        r == list_end(toks@, lo as int, hi as int),
        lo <= r <= hi,
        r < hi ==> punct_at(toks@, r as int, ','),
{
    let mut depth: usize = 0;
    let mut k: usize = lo;
    while k < hi
        invariant
            lo <= k <= hi,
            hi <= toks@.len(),
            depth <= k - lo,
            list_end(toks@, lo as int, hi as int) == list_end_from(toks@, lo as int, k as int, hi as int, depth as nat),
        decreases hi - k,
    {
        let mut next = k + 1;
        match &toks[k] {
            Tok::Punct(c) => {
                if *c == ',' && depth == 0 {
                    return k;
                } else if *c == '<' {
                    depth = depth + 1;
                } else if *c == '>' && depth > 0 && !(k > lo && (is_punct(toks, k - 1, hi, '-') || is_punct(toks, k - 1, hi, '='))) {
                    depth = depth - 1;
                }
            },
            Tok::Open(_) => {
                match group_end(toks, k, hi) {
                    Some(e) => {
                        next = e + 1;
                    },
                    None => {},
                }
            },
            _ => {},
        }
        k = next;
    }
    hi
}

/// A type as the grammar reads it.
pub ghost enum TypeSpec {
    Path(Seq<SegSpec>),
    Other,
}

/// A path segment: its identifier and its angle-bracketed arguments.
pub ghost struct SegSpec {
    pub ident: Seq<char>,
    pub args: Seq<ArgSpec>,
}

/// A generic argument: a type, or a lifetime or literal.
pub ghost enum ArgSpec {
    Type(TypeSpec),
    Other,
}

/// The type written by the tokens from `lo` to `hi`: a path, with or without
/// a leading `::`, where they are exactly one, else `Other`.
pub open spec fn type_of(toks: Seq<Tok>, lo: int, hi: int) -> TypeSpec
    decreases hi - lo, 2int,
{
    if lo > hi {
        TypeSpec::Other
    } else {
        let i = if (lo < hi && punct_at(toks, lo, ':')) && (lo + 1 < hi && punct_at(toks, lo + 1, ':')) {
            lo + 2
        } else {
            lo
        };
        match segs_from(toks, i, hi) {
            Some(ss) => TypeSpec::Path(ss),
            None => TypeSpec::Other,
        }
    }
}

/// The segments of a path from `i` to `hi`: each an identifier with optional
/// `<...>` arguments, separated by `::`.
pub open spec fn segs_from(toks: Seq<Tok>, i: int, hi: int) -> Option<Seq<SegSpec>>
    decreases hi - i, 1int,
{
    if i < 0 || i >= hi || i >= toks.len() || !(toks[i] is Ident) {
        None
    } else {
        let j = i + 1;
        let found = if j < hi && punct_at(toks, j, '<') {
            match angle_from(toks, j, j, hi, 0) {
                Some(e) => if j < e < hi {
                    Some((SegSpec { ident: toks[i]->Ident_0@, args: args_from(toks, j + 1, e) }, e + 1))
                } else {
                    None
                },
                None => None,
            }
        } else {
            Some((SegSpec { ident: toks[i]->Ident_0@, args: Seq::empty() }, j))
        };
        match found {
            None => None,
            Some((seg, k)) => if k == hi {
                Some(seq![seg])
            } else if k < hi && (punct_at(toks, k, ':') && k + 1 < hi && punct_at(toks, k + 1, ':')) && k > i {
                prepend(seq![seg], segs_from(toks, k + 2, hi))
            } else {
                None
            },
        }
    }
}

/// The generic arguments from `a` to `e`, separated by commas: a lifetime or
/// a literal is `Other`, anything else a type.
pub open spec fn args_from(toks: Seq<Tok>, a: int, e: int) -> Seq<ArgSpec>
    decreases e - a, 3int,
{
    if a < 0 || a >= e || a >= toks.len() {
        Seq::empty()
    } else {
        let end = list_end(toks, a, e);
        if end < a || end > e {
            Seq::empty()
        } else {
            let arg = match toks[a] {
                Tok::Punct(c) => if c == '\'' {
                    ArgSpec::Other
                } else {
                    ArgSpec::Type(type_of(toks, a, end))
                },
                Tok::Literal(_) => ArgSpec::Other,
                _ => ArgSpec::Type(type_of(toks, a, end)),
            };
            seq![arg] + if end < e {
                args_from(toks, end + 1, e)
            } else {
                Seq::empty()
            }
        }
    }
}

/// The type `t` is `s`.
pub open spec fn type_match(t: TypeExpr, s: TypeSpec) -> bool
    decreases t,
{
    match t {
        TypeExpr::Path(segs) => match s {
            TypeSpec::Path(ss) => segs@.len() == ss.len() && forall|k: int|
                0 <= k < ss.len() ==> seg_match(#[trigger] segs@[k], ss[k]),
            TypeSpec::Other => false,
        },
        TypeExpr::Other => s is Other,
    }
}

/// The segment `seg` is `s`.
pub open spec fn seg_match(seg: PathSegment, s: SegSpec) -> bool
    decreases seg,
{
    seg.ident@ == s.ident && seg.args@.len() == s.args.len() && forall|k: int|
        0 <= k < s.args.len() ==> arg_match(#[trigger] seg.args@[k], s.args[k])
}

/// The argument `a` is `s`.
pub open spec fn arg_match(a: GenericArg, s: ArgSpec) -> bool
    decreases a,
{
    match a {
        GenericArg::Type(t) => match s {
            ArgSpec::Type(ts) => type_match(t, ts),
            ArgSpec::Other => false,
        },
        GenericArg::Other => s is Other,
    }
}

/// The type written by the tokens from `lo` to `hi`: a path where they are
/// exactly one, else `Other`.
pub fn parse_type(toks: &Vec<Tok>, lo: usize, hi: usize) -> (r: TypeExpr)
    requires
        lo <= hi <= toks@.len(),
    ensures
        type_match(r, type_of(toks@, lo as int, hi as int)),
    decreases hi - lo,
{
    let mut segs: Vec<PathSegment> = Vec::new();
    let mut i: usize = lo;
    if is_punct(toks, i, hi, ':') && is_punct(toks, i + 1, hi, ':') {
        i = i + 2;
    }
    let ghost mut done: Seq<SegSpec> = Seq::empty();
    assert(prepend(done, segs_from(toks@, i as int, hi as int)) == segs_from(toks@, i as int, hi as int)) by {
        match segs_from(toks@, i as int, hi as int) {
            Some(x) => assert(done + x =~= x),
            None => {},
        }
    }
    loop
        invariant
            lo <= i <= hi,
            hi <= toks@.len(),
            i == lo || segs@.len() > 0 || (i == lo + 2 && punct_at(toks@, lo as int, ':')),
            type_of(toks@, lo as int, hi as int) == match prepend(done, segs_from(toks@, i as int, hi as int)) {
                Some(ss) => TypeSpec::Path(ss),
                None => TypeSpec::Other,
            },
            segs@.len() == done.len(),
            forall|m: int| 0 <= m < done.len() ==> seg_match(#[trigger] segs@[m], done[m]),
        decreases hi - i,
    {
        if i >= hi {
            return TypeExpr::Other;
        }
        let name = match &toks[i] {
            Tok::Ident(x) => x.clone(),
            _ => return TypeExpr::Other,
        };
        let ghost at = i as int;
        i = i + 1;
        let mut args: Vec<GenericArg> = Vec::new();
        let ghost mut got: Seq<ArgSpec> = Seq::empty();
        if is_punct(toks, i, hi, '<') {
            let e = match angle_end(toks, i, hi) {
                Some(e) => e,
                None => return TypeExpr::Other,
            };
            let mut a: usize = i + 1;
            assert(args_from(toks@, i + 1, e as int) == got + args_from(toks@, a as int, e as int)) by {
                assert(got + args_from(toks@, a as int, e as int) =~= args_from(toks@, a as int, e as int));
            }
            while a < e
                invariant
                    lo <= at < i < a <= e + 1,
                    i < e < hi,
                    hi <= toks@.len(),
                    args_from(toks@, i + 1, e as int) == got + args_from(toks@, a as int, e as int),
                    args@.len() == got.len(),
                    forall|m: int| 0 <= m < got.len() ==> arg_match(#[trigger] args@[m], got[m]),
                decreases e + 1 - a,
            {
                let end = item_end(toks, a, e);
                let arg = match &toks[a] {
                    Tok::Punct(c) => if *c == '\'' {
                        GenericArg::Other
                    } else {
                        GenericArg::Type(parse_type(toks, a, end))
                    },
                    Tok::Literal(_) => GenericArg::Other,
                    _ => GenericArg::Type(parse_type(toks, a, end)),
                };
                let ghost spec_arg = args_from(toks@, a as int, e as int)[0];
                assert(arg_match(arg, spec_arg));
                let ghost before = args@;
                args.push(arg);
                proof {
                    assert(args_from(toks@, a as int, e as int) == seq![spec_arg] + args_from(toks@, end + 1, e as int));
                    assert(got + (seq![spec_arg] + args_from(toks@, end + 1, e as int)) =~= (got + seq![spec_arg])
                        + args_from(toks@, end + 1, e as int));
                    assert forall|m: int| 0 <= m < got.len() + 1 implies arg_match(
                        #[trigger] args@[m],
                        (got + seq![spec_arg])[m],
                    ) by {
                        if m < got.len() {
                            assert(args@[m] == before[m]);
                        }
                    }
                    got = got + seq![spec_arg];
                }
                a = end + 1;
            }
            assert(args_from(toks@, a as int, e as int) =~= Seq::<ArgSpec>::empty());
            assert(got + Seq::<ArgSpec>::empty() =~= got);
            i = e + 1;
        }
        let seg = PathSegment { ident: name, args };
        let ghost sspec = SegSpec { ident: name@, args: got };
        assert(seg_match(seg, sspec));
        let ghost before_segs = segs@;
        segs.push(seg);
        proof {
            assert forall|m: int| 0 <= m < done.len() + 1 implies seg_match(
                #[trigger] segs@[m],
                (done + seq![sspec])[m],
            ) by {
                if m < done.len() {
                    assert(segs@[m] == before_segs[m]);
                }
            }
        }
        if i == hi {
            proof {
                assert(done + seq![sspec] =~= (done + seq![sspec]));
                done = done + seq![sspec];
            }
            return TypeExpr::Path(segs);
        }
        if is_punct(toks, i, hi, ':') && is_punct(toks, i + 1, hi, ':') {
            proof {
                match segs_from(toks@, i + 2, hi as int) {
                    Some(x) => assert(done + (seq![sspec] + x) =~= (done + seq![sspec]) + x),
                    None => {},
                }
                done = done + seq![sspec];
            }
            i = i + 2;
        } else {
            return TypeExpr::Other;
        }
    }
}

/// The position of the `]` that ends an outer attribute `#[...]` at `k`.
pub open spec fn attr_close(toks: Seq<Tok>, k: int, hi: int) -> Option<int> {
    if 0 <= k && k + 1 < hi && punct_at(toks, k, '#') && open_at(toks, k + 1, Delim::Bracket) {
        match group_close(toks, k + 1, hi) {
            Some(e) => if k + 1 < e < hi {
                Some(e)
            } else {
                None
            },
            None => None,
        }
    } else {
        None
    }
}

/// The attribute at `k` has the path `cfg`.
pub open spec fn is_cfg_at(toks: Seq<Tok>, k: int, hi: int) -> bool {
    k + 2 < hi && ident_at(toks, k + 2, "cfg"@) && !(k + 3 < hi && punct_at(toks, k + 3, ':'))
}

/// The position just after the outer attributes that start at `k`.
pub open spec fn attrs_end(toks: Seq<Tok>, k: int, hi: int) -> int
    decreases hi - k,
{
    match attr_close(toks, k, hi) {
        Some(e) => attrs_end(toks, e + 1, hi),
        None => k,
    }
}

/// The text of each `cfg` attribute among the outer attributes that start at
/// `k`, in order.
pub open spec fn cfg_texts(toks: Seq<Tok>, k: int, hi: int) -> Seq<Seq<char>>
    decreases hi - k,
{
    match attr_close(toks, k, hi) {
        Some(e) => if is_cfg_at(toks, k, hi) {
            seq![toks_text(toks.subrange(k, e + 1))] + cfg_texts(toks, e + 1, hi)
        } else {
            cfg_texts(toks, e + 1, hi)
        },
        None => Seq::empty(),
    }
}

/// The characters of each string.
pub open spec fn strs(s: Seq<String>) -> Seq<Seq<char>> {
    s.map_values(|x: String| x@)
}

/// Skips the outer attributes that start at `i`; the text of each `cfg` among
/// them is added to `cfgs`, in order.
pub fn parse_attrs(toks: &Vec<Tok>, i: usize, hi: usize, cfgs: &mut Vec<String>) -> (r: usize)
    requires
        i <= hi <= toks@.len(),
    ensures
        r == attrs_end(toks@, i as int, hi as int),
        strs(final(cfgs)@) == strs(old(cfgs)@) + cfg_texts(toks@, i as int, hi as int),
        i <= r <= hi,
{
    let mut k: usize = i;
    let ghost mut done: Seq<Seq<char>> = Seq::empty();
    assert(strs(cfgs@) =~= strs(old(cfgs)@) + done);
    while is_punct(toks, k, hi, '#')
        invariant
            i <= k <= hi,
            hi <= toks@.len(),
            attrs_end(toks@, i as int, hi as int) == attrs_end(toks@, k as int, hi as int),
            cfg_texts(toks@, i as int, hi as int) == done + cfg_texts(toks@, k as int, hi as int),
            strs(cfgs@) == strs(old(cfgs)@) + done,
        decreases hi - k,
    {
        let j = k + 1;
        if !is_open(toks, j, hi, Delim::Bracket) {
            return k;
        }
        match group_end(toks, j, hi) {
            Some(e) => {
                if j < hi && is_ident(toks, j + 1, hi, "cfg") && !is_punct(toks, j + 2, hi, ':') {
                    let text = toks_string(toks, k, e + 1);
                    let ghost before = cfgs@;
                    cfgs.push(text);
                    proof {
                        assert(strs(cfgs@) =~= strs(before) + seq![text@]);
                        assert(strs(cfgs@) =~= strs(old(cfgs)@) + (done + seq![text@]));
                        assert(cfg_texts(toks@, k as int, hi as int) == seq![text@] + cfg_texts(toks@, e + 1, hi as int));
                        assert(done + cfg_texts(toks@, k as int, hi as int) =~= (done + seq![text@]) + cfg_texts(toks@, e + 1, hi as int));
                        done = done + seq![text@];
                    }
                }
                k = e + 1;
            },
            None => return k,
        }
    }
    assert(cfg_texts(toks@, k as int, hi as int) =~= Seq::<Seq<char>>::empty());
    assert(done + Seq::<Seq<char>>::empty() =~= done);
    k
}

/// The position just after a visibility at `i`.
pub open spec fn vis_end(toks: Seq<Tok>, i: int, hi: int) -> int {
    if !(0 <= i < hi && ident_at(toks, i, "pub"@)) {
        i
    } else if i + 1 < hi && open_at(toks, i + 1, Delim::Paren) && ((i + 2 < hi && ident_at(toks, i + 2, "crate"@))
        || (i + 2 < hi && ident_at(toks, i + 2, "super"@)) || (i + 2 < hi && ident_at(toks, i + 2, "self"@)) || (i + 2
        < hi && ident_at(toks, i + 2, "in"@))) {
        match group_close(toks, i + 1, hi) {
            Some(e) => e + 1,
            None => i + 1,
        }
    } else {
        i + 1
    }
}

/// Skips a visibility at `i`.
fn skip_vis(toks: &Vec<Tok>, i: usize, hi: usize) -> (r: usize)
    requires
        i <= hi <= toks@.len(),
    ensures
        r == vis_end(toks@, i as int, hi as int),
        i <= r <= hi,
{
    if !is_ident(toks, i, hi, "pub") {
        return i;
    }
    let j = i + 1;
    if is_open(toks, j, hi, Delim::Paren) && (is_ident(toks, j + 1, hi, "crate") || is_ident(toks, j + 1, hi, "super")
        || is_ident(toks, j + 1, hi, "self") || is_ident(toks, j + 1, hi, "in")) {
        match group_end(toks, j, hi) {
            Some(e) => return e + 1,
            None => return j,
        }
    }
    j
}

/// The shape of a field list as the grammar reads it: the names and types of
/// braced fields, the types of positional fields, or none.
pub ghost enum FieldsSpec {
    Named(Seq<(Seq<char>, TypeSpec)>),
    Unnamed(Seq<TypeSpec>),
    Unit,
}

/// A variant: its name and fields.
pub ghost struct VariantSpec {
    pub name: Seq<char>,
    pub fields: FieldsSpec,
}

/// The shape of a declaration as the grammar reads it.
pub ghost enum ShapeSpec {
    Record(FieldsSpec),
    Union(Seq<VariantSpec>),
}

/// A declaration as the grammar reads it: name, shape, `#full` flag, guards.
pub ghost struct ItemSpec {
    pub name: Seq<char>,
    pub shape: ShapeSpec,
    pub full: bool,
    pub features: Seq<Seq<char>>,
}

/// `done` in front of what `rest` holds, if anything.
pub open spec fn prepend<T>(done: Seq<T>, rest: Option<Seq<T>>) -> Option<Seq<T>> {
    match rest {
        Some(x) => Some(done + x),
        None => None,
    }
}

/// The position after a list element that ends at `e`.
pub open spec fn step_after(e: int, hi: int) -> int {
    if e < hi {
        e + 1
    } else {
        e
    }
}

/// The names of a braced field list from `i` to `hi`, if it is well formed:
/// each field is attributes, a visibility, a name, `:` and a type, the fields
/// separated by commas.
pub open spec fn named_fields(toks: Seq<Tok>, i: int, hi: int) -> Option<Seq<(Seq<char>, TypeSpec)>>
    decreases hi - i,
{
    if i < 0 || i >= hi {
        Some(Seq::empty())
    } else {
        let v = vis_end(toks, attrs_end(toks, i, hi), hi);
        if v < i || v >= hi || v >= toks.len() || !(toks[v] is Ident) || !(v + 1 < hi && punct_at(toks, v + 1, ':')) {
            None
        } else {
            let e = list_end(toks, v + 2, hi);
            if e <= v + 2 || e > hi {
                None
            } else {
                prepend(seq![(toks[v]->Ident_0@, type_of(toks, v + 2, e))], named_fields(toks, step_after(e, hi), hi))
            }
        }
    }
}

/// The number of fields of a parenthesised field list from `i` to `hi`, if it
/// is well formed: each field is attributes, a visibility and a type.
pub open spec fn unnamed_fields(toks: Seq<Tok>, i: int, hi: int) -> Option<Seq<TypeSpec>>
    decreases hi - i,
{
    if i < 0 || i >= hi {
        Some(Seq::empty())
    } else {
        let v = vis_end(toks, attrs_end(toks, i, hi), hi);
        let e = list_end(toks, v, hi);
        if v < i || e <= v || e > hi {
            None
        } else {
            prepend(seq![type_of(toks, v, e)], unnamed_fields(toks, step_after(e, hi), hi))
        }
    }
}

/// The fields of a record taking all the tokens from `lo` to `hi`: a braced
/// list, a parenthesised list and `;`, or `;`.
pub open spec fn struct_rest(toks: Seq<Tok>, lo: int, hi: int) -> Option<FieldsSpec> {
    if lo < hi && open_at(toks, lo, Delim::Brace) {
        match group_close(toks, lo, hi) {
            Some(e) => if e + 1 != hi {
                None
            } else {
                match named_fields(toks, lo + 1, e) {
                    Some(ns) => Some(FieldsSpec::Named(ns)),
                    None => None,
                }
            },
            None => None,
        }
    } else if lo < hi && open_at(toks, lo, Delim::Paren) {
        match group_close(toks, lo, hi) {
            Some(e) => if !(e + 1 < hi && punct_at(toks, e + 1, ';')) || e + 2 != hi {
                None
            } else {
                match unnamed_fields(toks, lo + 1, e) {
                    Some(ts) => Some(FieldsSpec::Unnamed(ts)),
                    None => None,
                }
            },
            None => None,
        }
    } else if lo < hi && punct_at(toks, lo, ';') && lo + 1 == hi {
        Some(FieldsSpec::Unit)
    } else {
        None
    }
}

/// The fields of a variant whose name is at `a`, and the position after them.
pub open spec fn variant_fields(toks: Seq<Tok>, a: int, hi: int) -> Option<(FieldsSpec, int)> {
    let j = a + 1;
    if j < hi && (open_at(toks, j, Delim::Paren) || open_at(toks, j, Delim::Brace)) {
        match group_close(toks, j, hi) {
            Some(e) => if open_at(toks, j, Delim::Paren) {
                match unnamed_fields(toks, j + 1, e) {
                    Some(ts) => Some((FieldsSpec::Unnamed(ts), e + 1)),
                    None => None,
                }
            } else {
                match named_fields(toks, j + 1, e) {
                    Some(ns) => Some((FieldsSpec::Named(ns), e + 1)),
                    None => None,
                }
            },
            None => None,
        }
    } else {
        Some((FieldsSpec::Unit, j))
    }
}

/// The variants of an enum body from `i` to `hi`, if it is well formed: each
/// is attributes, a name, optional fields and an optional `= value`, the
/// variants separated by commas.
pub open spec fn variants(toks: Seq<Tok>, i: int, hi: int) -> Option<Seq<VariantSpec>>
    decreases hi - i,
{
    if i < 0 || i >= hi {
        Some(Seq::empty())
    } else {
        let a = attrs_end(toks, i, hi);
        if a < i || a >= hi || a >= toks.len() || !(toks[a] is Ident) {
            None
        } else {
            match variant_fields(toks, a, hi) {
                None => None,
                Some((fields, k)) => {
                    let k2 = if k < hi && punct_at(toks, k, '=') {
                        list_end(toks, k, hi)
                    } else {
                        k
                    };
                    let v = VariantSpec { name: toks[a]->Ident_0@, fields };
                    if k2 <= a {
                        None
                    } else if k2 < hi {
                        if !punct_at(toks, k2, ',') {
                            None
                        } else {
                            prepend(seq![v], variants(toks, k2 + 1, hi))
                        }
                    } else {
                        Some(seq![v])
                    }
                },
            }
        }
    }
}

/// A plain record or tagged union declaration taking all the tokens from `lo`
/// to `hi`: its name and shape.
pub open spec fn derive_input(toks: Seq<Tok>, lo: int, hi: int) -> Option<(Seq<char>, ShapeSpec)> {
    let i = vis_end(toks, attrs_end(toks, lo, hi), hi);
    let is_struct = i < hi && ident_at(toks, i, "struct"@);
    if !is_struct && !(i < hi && ident_at(toks, i, "enum"@)) {
        None
    } else if !(i + 1 < hi && i + 1 < toks.len() && toks[i + 1] is Ident) {
        None
    } else {
        let name = toks[i + 1]->Ident_0@;
        let s = i + 2;
        if is_struct {
            match struct_rest(toks, s, hi) {
                Some(f) => Some((name, ShapeSpec::Record(f))),
                None => None,
            }
        } else if !(s < hi && open_at(toks, s, Delim::Brace)) {
            None
        } else {
            match group_close(toks, s, hi) {
                Some(e) => if e + 1 != hi {
                    None
                } else {
                    match variants(toks, s + 1, e) {
                        Some(vs) => Some((name, ShapeSpec::Union(vs))),
                        None => None,
                    }
                },
                None => None,
            }
        }
    }
}

/// A record written as its name, an optional `#full` mark, an optional
/// `#manual_extra_traits` mark, then its fields.
pub open spec fn struct_inner(toks: Seq<Tok>, lo: int, hi: int) -> Option<ItemSpec> {
    if !(0 <= lo < hi && lo < toks.len() && toks[lo] is Ident) {
        None
    } else {
        let full = (lo + 1 < hi && punct_at(toks, lo + 1, '#')) && (lo + 2 < hi && ident_at(toks, lo + 2, "full"@));
        let i = if full {
            lo + 3
        } else {
            lo + 1
        };
        let i2 = if (i < hi && punct_at(toks, i, '#')) && (i + 1 < hi && ident_at(toks, i + 1, "manual_extra_traits"@)) {
            i + 2
        } else {
            i
        };
        match struct_rest(toks, i2, hi) {
            Some(f) => Some(
                ItemSpec {
                    name: toks[lo]->Ident_0@,
                    shape: ShapeSpec::Record(f),
                    full,
                    features: if full {
                        seq![FULL_CFG@]
                    } else {
                        Seq::empty()
                    },
                },
            ),
            None => None,
        }
    }
}

/// The field list `f` has the shape `s`.
pub open spec fn fields_match(f: Fields, s: FieldsSpec) -> bool {
    match (f, s) {
        (Fields::Named(fs), FieldsSpec::Named(ns)) => fs@.len() == ns.len() && forall|k: int|
            0 <= k < ns.len() ==> ((#[trigger] fs@[k]).name matches Some(n) && n@ == ns[k].0 && type_match(
                fs@[k].ty,
                ns[k].1,
            )),
        (Fields::Unnamed(fs), FieldsSpec::Unnamed(ts)) => fs@.len() == ts.len() && forall|k: int|
            0 <= k < ts.len() ==> (#[trigger] fs@[k]).name is None && type_match(fs@[k].ty, ts[k]),
        (Fields::Unit, FieldsSpec::Unit) => true,
        _ => false,
    }
}

/// The variant `v` is `s`.
pub open spec fn variant_match(v: Variant, s: VariantSpec) -> bool {
    v.name@ == s.name && fields_match(v.fields, s.fields)
}

/// The shape `sh` is `s`.
pub open spec fn shape_match(sh: Shape, s: ShapeSpec) -> bool {
    match (sh, s) {
        (Shape::Record(f), ShapeSpec::Record(fs)) => fields_match(f, fs),
        (Shape::Union(vs), ShapeSpec::Union(ss)) => vs@.len() == ss.len() && forall|k: int|
            0 <= k < ss.len() ==> variant_match(#[trigger] vs@[k], ss[k]),
        _ => false,
    }
}

/// The declaration `it` is `s`.
pub open spec fn item_match(it: AstItem, s: ItemSpec) -> bool {
    &&& it.name@ == s.name
    &&& shape_match(it.shape, s.shape)
    &&& it.eos_full == s.full
    &&& strs(it.features@) == s.features
}

/// The declarations `its` are `ss`, in order.
pub open spec fn items_match(its: Seq<AstItem>, ss: Seq<ItemSpec>) -> bool {
    its.len() == ss.len() && forall|k: int| 0 <= k < ss.len() ==> item_match(#[trigger] its[k], ss[k])
}

/// The fields of a braced field list between `lo` and `hi`.
fn parse_named_fields(toks: &Vec<Tok>, lo: usize, hi: usize) -> (r: Option<Vec<Field>>)
    requires
        lo <= hi <= toks@.len(),
    ensures
        match named_fields(toks@, lo as int, hi as int) {
            Some(ns) => r matches Some(fs) && fields_match(Fields::Named(fs), FieldsSpec::Named(ns)),
            None => r is None,
        },
{
    let mut fs: Vec<Field> = Vec::new();
    let mut i: usize = lo;
    let mut ignored: Vec<String> = Vec::new();
    let ghost mut done: Seq<(Seq<char>, TypeSpec)> = Seq::empty();
    while i < hi
        invariant
            lo <= i <= hi,
            hi <= toks@.len(),
            named_fields(toks@, lo as int, hi as int) == prepend(done, named_fields(toks@, i as int, hi as int)),
            fields_match(Fields::Named(fs), FieldsSpec::Named(done)),
        decreases hi - i,
    {
        let start_i = i;
        i = parse_attrs(toks, i, hi, &mut ignored);
        i = skip_vis(toks, i, hi);
        if i >= hi {
            return None;
        }
        let name = match &toks[i] {
            Tok::Ident(x) => x.clone(),
            _ => return None,
        };
        if !is_punct(toks, i + 1, hi, ':') {
            return None;
        }
        let start = i + 2;
        let end = item_end(toks, start, hi);
        if end == start {
            return None;
        }
        let ghost before = fs@;
        let ty = parse_type(toks, start, end);
        let ghost ent = (name@, type_of(toks@, start as int, end as int));
        fs.push(Field { name: Some(name), ty });
        i = if end < hi {
            end + 1
        } else {
            end
        };
        proof {
            let nd = done + seq![ent];
            assert(prepend(done, named_fields(toks@, start_i as int, hi as int)) == prepend(nd, named_fields(toks@, i as int, hi as int))) by {
                match named_fields(toks@, i as int, hi as int) {
                    Some(x) => assert(done + (seq![ent] + x) =~= nd + x),
                    None => {},
                }
            }
            assert forall|k: int| 0 <= k < nd.len() implies ((#[trigger] fs@[k]).name matches Some(n) && n@ == nd[k].0
                && type_match(fs@[k].ty, nd[k].1)) by {
                if k < before.len() {
                    assert(fs@[k] == before[k]);
                }
            }
            done = nd;
        }
    }
    assert(done + Seq::<(Seq<char>, TypeSpec)>::empty() =~= done);
    Some(fs)
}

/// The fields of a parenthesised field list between `lo` and `hi`.
fn parse_unnamed_fields(toks: &Vec<Tok>, lo: usize, hi: usize) -> (r: Option<Vec<Field>>)
    requires
        lo <= hi <= toks@.len(),
    ensures
        match unnamed_fields(toks@, lo as int, hi as int) {
            Some(ts) => r matches Some(fs) && fields_match(Fields::Unnamed(fs), FieldsSpec::Unnamed(ts)),
            None => r is None,
        },
{
    let mut fs: Vec<Field> = Vec::new();
    let mut i: usize = lo;
    let mut ignored: Vec<String> = Vec::new();
    let ghost mut done: Seq<TypeSpec> = Seq::empty();
    while i < hi
        invariant
            lo <= i <= hi,
            hi <= toks@.len(),
            unnamed_fields(toks@, lo as int, hi as int) == prepend(done, unnamed_fields(toks@, i as int, hi as int)),
            fields_match(Fields::Unnamed(fs), FieldsSpec::Unnamed(done)),
        decreases hi - i,
    {
        let start_i = i;
        i = parse_attrs(toks, i, hi, &mut ignored);
        i = skip_vis(toks, i, hi);
        let end = item_end(toks, i, hi);
        if end == i {
            return None;
        }
        let ty = parse_type(toks, i, end);
        let ghost t = type_of(toks@, i as int, end as int);
        let ghost before = fs@;
        fs.push(Field { name: None, ty });
        i = if end < hi {
            end + 1
        } else {
            end
        };
        proof {
            let nd = done + seq![t];
            assert(prepend(done, unnamed_fields(toks@, start_i as int, hi as int)) == prepend(nd, unnamed_fields(toks@, i as int, hi as int))) by {
                match unnamed_fields(toks@, i as int, hi as int) {
                    Some(x) => assert(done + (seq![t] + x) =~= nd + x),
                    None => {},
                }
            }
            assert forall|k: int| 0 <= k < nd.len() implies (#[trigger] fs@[k]).name is None && type_match(fs@[k].ty, nd[k]) by {
                if k < before.len() {
                    assert(fs@[k] == before[k]);
                }
            }
            done = nd;
        }
    }
    assert(done + Seq::<TypeSpec>::empty() =~= done);
    Some(fs)
}

/// The fields of a record: a braced list, a parenthesised list and `;`, or `;`,
/// which take all the tokens from `lo` to `hi`.
fn parse_struct_rest(toks: &Vec<Tok>, lo: usize, hi: usize) -> (r: Option<Fields>)
    requires
        lo <= hi <= toks@.len(),
    ensures
        match struct_rest(toks@, lo as int, hi as int) {
            Some(s) => r matches Some(f) && fields_match(f, s),
            None => r is None,
        },
{
    if is_open(toks, lo, hi, Delim::Brace) {
        match group_end(toks, lo, hi) {
            Some(e) => {
                if e + 1 != hi {
                    return None;
                }
                match parse_named_fields(toks, lo + 1, e) {
                    Some(fs) => Some(Fields::Named(fs)),
                    None => None,
                }
            },
            None => None,
        }
    } else if is_open(toks, lo, hi, Delim::Paren) {
        match group_end(toks, lo, hi) {
            Some(e) => {
                if !is_punct(toks, e + 1, hi, ';') || e + 2 != hi {
                    return None;
                }
                match parse_unnamed_fields(toks, lo + 1, e) {
                    Some(fs) => Some(Fields::Unnamed(fs)),
                    None => None,
                }
            },
            None => None,
        }
    } else if is_punct(toks, lo, hi, ';') && lo + 1 == hi {
        Some(Fields::Unit)
    } else {
        None
    }
}

/// The variants of an enum body between `lo` and `hi`.
fn parse_variants(toks: &Vec<Tok>, lo: usize, hi: usize) -> (r: Option<Vec<Variant>>)
    requires
        lo <= hi <= toks@.len(),
    ensures
        match variants(toks@, lo as int, hi as int) {
            Some(ss) => r matches Some(vs) && shape_match(Shape::Union(vs), ShapeSpec::Union(ss)),
            None => r is None,
        },
{
    let mut vs: Vec<Variant> = Vec::new();
    let mut i: usize = lo;
    let mut ignored: Vec<String> = Vec::new();
    let ghost mut done: Seq<VariantSpec> = Seq::empty();
    while i < hi
        invariant
            lo <= i <= hi,
            hi <= toks@.len(),
            variants(toks@, lo as int, hi as int) == prepend(done, variants(toks@, i as int, hi as int)),
            shape_match(Shape::Union(vs), ShapeSpec::Union(done)),
        decreases hi - i,
    {
        let start_i = i;
        i = parse_attrs(toks, i, hi, &mut ignored);
        if i >= hi {
            return None;
        }
        let name = match &toks[i] {
            Tok::Ident(x) => x.clone(),
            _ => return None,
        };
        let a = i;
        i = i + 1;
        let mut fields = Fields::Unit;
        if is_open(toks, i, hi, Delim::Paren) || is_open(toks, i, hi, Delim::Brace) {
            let e = match group_end(toks, i, hi) {
                Some(e) => e,
                None => return None,
            };
            let inner = if is_open(toks, i, hi, Delim::Paren) {
                match parse_unnamed_fields(toks, i + 1, e) {
                    Some(fs) => Fields::Unnamed(fs),
                    None => return None,
                }
            } else {
                match parse_named_fields(toks, i + 1, e) {
                    Some(fs) => Fields::Named(fs),
                    None => return None,
                }
            };
            fields = inner;
            i = e + 1;
        }
        let ghost fspec = variant_fields(toks@, a as int, hi as int)->Some_0.0;
        assert(fields_match(fields, fspec));
        if is_punct(toks, i, hi, '=') {
            i = item_end(toks, i, hi);
        }
        let v = Variant { name, fields };
        let ghost gv = v;
        let ghost vspec = VariantSpec { name: name@, fields: fspec };
        let ghost before = vs@;
        vs.push(v);
        proof {
            assert forall|k: int| 0 <= k < done.len() + 1 implies variant_match(#[trigger] vs@[k], (done + seq![vspec])[k]) by {
                if k < done.len() {
                    assert(vs@[k] == before[k]);
                } else {
                    assert(vs@[k] == gv);
                }
            }
        }
        if i < hi {
            if !is_punct(toks, i, hi, ',') {
                return None;
            }
            i = i + 1;
            proof {
                match variants(toks@, i as int, hi as int) {
                    Some(x) => assert(done + (seq![vspec] + x) =~= (done + seq![vspec]) + x),
                    None => {},
                }
            }
        } else {
            assert(done + seq![vspec] + Seq::<VariantSpec>::empty() =~= done + seq![vspec]);
        }
        proof {
            done = done + seq![vspec];
        }
    }
    assert(done + Seq::<VariantSpec>::empty() =~= done);
    Some(vs)
}

/// A plain record or tagged union declaration taking all the tokens from `lo`
/// to `hi`; it carries no guard.
pub fn parse_derive_input(toks: &Vec<Tok>, lo: usize, hi: usize) -> (r: Option<AstItem>)
    requires
        lo <= hi <= toks@.len(),
    ensures
        match derive_input(toks@, lo as int, hi as int) {
            Some((n, sh)) => r matches Some(it) && item_match(
                it,
                ItemSpec { name: n, shape: sh, full: false, features: Seq::empty() },
            ),
            None => r is None,
        },
{
    let mut ignored: Vec<String> = Vec::new();
    let mut i = parse_attrs(toks, lo, hi, &mut ignored);
    i = skip_vis(toks, i, hi);
    let is_struct = is_ident(toks, i, hi, "struct");
    if !is_struct && !is_ident(toks, i, hi, "enum") {
        return None;
    }
    let name = if i + 1 < hi {
        match &toks[i + 1] {
            Tok::Ident(x) => x.clone(),
            _ => return None,
        }
    } else {
        return None;
    };
    let start = i + 2;
    let no_features: Vec<String> = Vec::new();
    assert(strs(no_features@) =~= Seq::<Seq<char>>::empty());
    if is_struct {
        match parse_struct_rest(toks, start, hi) {
            Some(fields) => Some(
                AstItem { name, shape: Shape::Record(fields), features: no_features, eos_full: false },
            ),
            None => None,
        }
    } else {
        if !is_open(toks, start, hi, Delim::Brace) {
            return None;
        }
        match group_end(toks, start, hi) {
            Some(e) => {
                if e + 1 != hi {
                    return None;
                }
                match parse_variants(toks, start + 1, e) {
                    Some(vs) => Some(
                        AstItem { name, shape: Shape::Union(vs), features: no_features, eos_full: false },
                    ),
                    None => None,
                }
            },
            None => None,
        }
    }
}

/// A record written as its name, an optional `#full` mark, an optional
/// `#manual_extra_traits` mark, then its fields. One marked `#full` is guarded
/// by the extended feature and flagged as such.
pub fn ast_struct_inner(toks: &Vec<Tok>, lo: usize, hi: usize) -> (r: Option<AstItem>)
    requires
        lo <= hi <= toks@.len(),
    ensures
        match struct_inner(toks@, lo as int, hi as int) {
            Some(s) => r matches Some(it) && item_match(it, s),
            None => r is None,
        },
{
    if lo >= hi {
        return None;
    }
    let name = match &toks[lo] {
        Tok::Ident(x) => x.clone(),
        _ => return None,
    };
    let mut i = lo + 1;
    let full = is_punct(toks, i, hi, '#') && is_ident(toks, i + 1, hi, "full");
    if full {
        i = i + 2;
    }
    if is_punct(toks, i, hi, '#') && is_ident(toks, i + 1, hi, "manual_extra_traits") {
        i = i + 2;
    }
    let fields = match parse_struct_rest(toks, i, hi) {
        Some(f) => f,
        None => return None,
    };
    let mut features: Vec<String> = Vec::new();
    if full {
        features.push(FULL_CFG.to_string());
    }
    assert(strs(features@) =~= if full {
        seq![FULL_CFG@]
    } else {
        Seq::<Seq<char>>::empty()
    });
    Some(AstItem { name, shape: Shape::Record(fields), features, eos_full: full })
}

/// The declarations of an `ast_struct!` invocation.
pub struct AstStruct(pub Vec<AstItem>);

/// The declarations of an `ast_enum!` invocation.
pub struct AstEnum(pub Vec<AstItem>);

/// The declarations of an `ast_enum_of_structs!` invocation.
pub struct AstEnumOfStructs(pub Vec<AstItem>);

/// The contents of an `ast_struct!` invocation: attributes, `pub struct`, then
/// a record as `struct_inner` reads it.
pub open spec fn ast_struct_of(toks: Seq<Tok>, lo: int, hi: int) -> Option<Seq<ItemSpec>> {
    let i = attrs_end(toks, lo, hi);
    if !(i < hi && ident_at(toks, i, "pub"@)) || !(i + 1 < hi && ident_at(toks, i + 1, "struct"@)) {
        None
    } else {
        match struct_inner(toks, i + 2, hi) {
            Some(s) => Some(seq![s]),
            None => None,
        }
    }
}

/// The contents of an `ast_enum!` invocation: one plain declaration, unguarded.
pub open spec fn ast_enum_of(toks: Seq<Tok>, lo: int, hi: int) -> Option<Seq<ItemSpec>> {
    match derive_input(toks, lo, hi) {
        Some((n, sh)) => Some(seq![ItemSpec { name: n, shape: sh, full: false, features: Seq::empty() }]),
        None => None,
    }
}

/// A variant of an `ast_enum_of_structs!` body: its name and the record it
/// declares inline, if any.
pub ghost struct EosSpec {
    pub name: Seq<char>,
    pub inline: Option<ItemSpec>,
    pub member: TypeSpec,
}

/// The type of a variant's payload: the record it declares inline, named by
/// a path of one segment, or the path it names.
pub open spec fn member_of(inl: Option<ItemSpec>, toks: Seq<Tok>, lo: int, hi: int) -> TypeSpec {
    match inl {
        Some(it) => TypeSpec::Path(seq![SegSpec { ident: it.name, args: Seq::empty() }]),
        None => type_of(toks, lo, hi),
    }
}

/// The variants of an `ast_enum_of_structs!` body from `k` to `e`: each is
/// attributes, `pub`, a name and, in parentheses, an inline record or a path,
/// then a comma.
pub open spec fn eos_variants(toks: Seq<Tok>, k: int, e: int) -> Option<Seq<EosSpec>>
    decreases e - k,
{
    if k < 0 || k >= e {
        Some(Seq::empty())
    } else {
        let a = attrs_end(toks, k, e);
        if a < k || !(a < e && ident_at(toks, a, "pub"@)) || a + 1 >= e || a + 1 >= toks.len() || !(toks[a
            + 1] is Ident) {
            None
        } else {
            let p = a + 2;
            if !(p < e && open_at(toks, p, Delim::Paren)) {
                None
            } else {
                match group_close(toks, p, e) {
                    None => None,
                    Some(q) => {
                        let inl = struct_inner(toks, p + 1, q);
                        if inl is None && type_of(toks, p + 1, q) is Other {
                            None
                        } else if !(q + 1 < e && punct_at(toks, q + 1, ',')) || q + 2 <= k {
                            None
                        } else {
                            prepend(
                                seq![
                                    EosSpec {
                                        name: toks[a + 1]->Ident_0@,
                                        inline: inl,
                                        member: member_of(inl, toks, p + 1, q),
                                    },
                                ],
                                eos_variants(toks, q + 2, e),
                            )
                        }
                    },
                }
            }
        }
    }
}

/// The variants of the union: each holds one positional field.
pub open spec fn eos_union(vs: Seq<EosSpec>) -> Seq<VariantSpec> {
    vs.map_values(|v: EosSpec| VariantSpec { name: v.name, fields: FieldsSpec::Unnamed(seq![v.member]) })
}

/// The records declared inline, in order.
pub open spec fn eos_inline(vs: Seq<EosSpec>) -> Seq<ItemSpec>
    decreases vs.len(),
{
    if vs.len() == 0 {
        Seq::empty()
    } else {
        eos_inline(vs.drop_last()) + match vs.last().inline {
            Some(it) => seq![it],
            None => Seq::empty(),
        }
    }
}

/// The contents of an `ast_enum_of_structs!` invocation: the union, unguarded,
/// then each record declared inline.
pub open spec fn ast_enum_of_structs_of(toks: Seq<Tok>, lo: int, hi: int) -> Option<Seq<ItemSpec>> {
    let i = attrs_end(toks, lo, hi);
    if !(i < hi && ident_at(toks, i, "pub"@)) || !(i + 1 < hi && ident_at(toks, i + 1, "enum"@)) || i + 2 >= hi
        || i + 2 >= toks.len() || !(toks[i + 2] is Ident) {
        None
    } else {
        let b = i + 3;
        if !(b < hi && open_at(toks, b, Delim::Brace)) {
            None
        } else {
            match group_close(toks, b, hi) {
                None => None,
                Some(e) => {
                    let after = if e + 1 < hi && e + 1 < toks.len() && toks[e + 1] is Ident {
                        e + 2
                    } else {
                        e + 1
                    };
                    if after != hi {
                        None
                    } else {
                        match eos_variants(toks, b + 1, e) {
                            None => None,
                            Some(vs) => Some(
                                seq![
                                    ItemSpec {
                                        name: toks[i + 2]->Ident_0@,
                                        shape: ShapeSpec::Union(eos_union(vs)),
                                        full: false,
                                        features: Seq::empty(),
                                    },
                                ] + eos_inline(vs),
                            ),
                        }
                    }
                },
            }
        }
    }
}

impl AstStruct {
    /// The contents of an `ast_struct!` invocation: attributes, `pub struct`, then
    /// a record as `ast_struct_inner` reads it.
    pub fn parse(toks: &Vec<Tok>, lo: usize, hi: usize) -> (r: Option<AstStruct>)
        requires
            lo <= hi <= toks@.len(),
        ensures
            match ast_struct_of(toks@, lo as int, hi as int) {
                Some(ss) => r matches Some(x) && items_match(x.0@, ss),
                None => r is None,
            },
    {
        let mut ignored: Vec<String> = Vec::new();
        let i = parse_attrs(toks, lo, hi, &mut ignored);
        if !is_ident(toks, i, hi, "pub") || !is_ident(toks, i + 1, hi, "struct") {
            return None;
        }
        match ast_struct_inner(toks, i + 2, hi) {
            Some(it) => {
                let v = vec![it];
                assert(v@ =~= seq![it]);
                Some(AstStruct(v))
            },
            None => None,
        }
    }
}

impl AstEnum {
    /// The contents of an `ast_enum!` invocation: one plain declaration.
    pub fn parse(toks: &Vec<Tok>, lo: usize, hi: usize) -> (r: Option<AstEnum>)
        requires
            lo <= hi <= toks@.len(),
        ensures
            match ast_enum_of(toks@, lo as int, hi as int) {
                Some(ss) => r matches Some(x) && items_match(x.0@, ss),
                None => r is None,
            },
    {
        match parse_derive_input(toks, lo, hi) {
            Some(it) => {
                let v = vec![it];
                assert(v@ =~= seq![it]);
                Some(AstEnum(v))
            },
            None => None,
        }
    }
}

impl AstEnumOfStructs {
    /// The contents of an `ast_enum_of_structs!` invocation: a tagged union whose
    /// variants each hold one record, either written inline or named by a path.
    /// The union comes first, then each inline record, in order.
    #[verifier::rlimit(100)]
    pub fn parse(toks: &Vec<Tok>, lo: usize, hi: usize) -> (r: Option<AstEnumOfStructs>)
        requires
            lo <= hi <= toks@.len(),
        ensures
            match ast_enum_of_structs_of(toks@, lo as int, hi as int) {
                Some(ss) => r matches Some(x) && items_match(x.0@, ss),
                None => r is None,
            },
    {
        let mut ignored: Vec<String> = Vec::new();
        let i = parse_attrs(toks, lo, hi, &mut ignored);
        if !is_ident(toks, i, hi, "pub") || !is_ident(toks, i + 1, hi, "enum") {
            return None;
        }
        if i + 2 >= hi {
            return None;
        }
        let name = match &toks[i + 2] {
            Tok::Ident(x) => x.clone(),
            _ => return None,
        };
        let b = i + 3;
        if !is_open(toks, b, hi, Delim::Brace) {
            return None;
        }
        let e = match group_end(toks, b, hi) {
            Some(e) => e,
            None => return None,
        };
        let mut after = e + 1;
        if after < hi {
            match &toks[after] {
                Tok::Ident(_) => {
                    after = after + 1;
                },
                _ => {},
            }
        }
        if after != hi {
            return None;
        }
        let mut variants: Vec<Variant> = Vec::new();
        let mut inline: Vec<AstItem> = Vec::new();
        let mut k: usize = b + 1;
        let ghost mut done: Seq<EosSpec> = Seq::empty();
        assert(eos_union(done) =~= Seq::<VariantSpec>::empty());
        while k < e
            invariant
                b < k <= e,
                e < hi,
                hi <= toks@.len(),
                eos_variants(toks@, b + 1, e as int) == prepend(done, eos_variants(toks@, k as int, e as int)),
                ast_enum_of_structs_of(toks@, lo as int, hi as int) == match eos_variants(toks@, b + 1, e as int) {
                    None => None,
                    Some(vs) => Some(
                        seq![
                            ItemSpec {
                                name: name@,
                                shape: ShapeSpec::Union(eos_union(vs)),
                                full: false,
                                features: Seq::empty(),
                            },
                        ] + eos_inline(vs),
                    ),
                },
                shape_match(Shape::Union(variants), ShapeSpec::Union(eos_union(done))),
                items_match(inline@, eos_inline(done)),
            decreases e - k,
        {
            let start_k = k;
            k = parse_attrs(toks, k, e, &mut ignored);
            if !is_ident(toks, k, e, "pub") || k + 1 >= e {
                return None;
            }
            let vname = match &toks[k + 1] {
                Tok::Ident(x) => x.clone(),
                _ => return None,
            };
            let p = k + 2;
            if !is_open(toks, p, e, Delim::Paren) {
                return None;
            }
            let q = match group_end(toks, p, e) {
                Some(q) => q,
                None => return None,
            };
            let ghost inl = struct_inner(toks@, p + 1, q as int);
            let ghost before_inline = inline@;
            let ghost before_variants = variants@;
            let member = match ast_struct_inner(toks, p + 1, q) {
                Some(it) => {
                    let seg = PathSegment { ident: it.name.clone(), args: Vec::new() };
                    inline.push(it);
                    let segs = vec![seg];
                    TypeExpr::Path(segs)
                },
                None => {
                    let ty = parse_type(toks, p + 1, q);
                    if let TypeExpr::Other = ty {
                        return None;
                    }
                    ty
                },
            };
            if !is_punct(toks, q + 1, e, ',') {
                return None;
            }
            let payload = vec![Field { name: None, ty: member }];
            assert(payload@ =~= seq![Field { name: None, ty: member }]);
            let v = Variant { name: vname, fields: Fields::Unnamed(payload) };
            let ghost gv = v;
            variants.push(v);
            k = q + 2;
            proof {
                let es = EosSpec { name: vname@, inline: inl, member: member_of(inl, toks@, p + 1, q as int) };
                let nd = done + seq![es];
                match eos_variants(toks@, k as int, e as int) {
                    Some(x) => assert(done + (seq![es] + x) =~= nd + x),
                    None => {},
                }
                assert(eos_union(nd) =~= eos_union(done) + seq![VariantSpec { name: vname@, fields: FieldsSpec::Unnamed(seq![es.member]) }]);
                assert forall|j: int| 0 <= j < eos_union(nd).len() implies variant_match(
                    #[trigger] variants@[j],
                    eos_union(nd)[j],
                ) by {
                    if j < before_variants.len() {
                        assert(variants@[j] == before_variants[j]);
                    } else {
                        assert(variants@[j] == gv);
                    }
                }
                assert(nd.drop_last() =~= done);
                let add = match inl {
                    Some(it) => seq![it],
                    None => Seq::<ItemSpec>::empty(),
                };
                assert(eos_inline(nd) == eos_inline(done) + add);
                assert forall|j: int| 0 <= j < eos_inline(nd).len() implies item_match(
                    #[trigger] inline@[j],
                    eos_inline(nd)[j],
                ) by {
                    if j < before_inline.len() {
                        assert(inline@[j] == before_inline[j]);
                    }
                }
                done = nd;
            }
        }
        assert(done + Seq::<EosSpec>::empty() =~= done);
        let mut items: Vec<AstItem> = Vec::new();
        let no_features: Vec<String> = Vec::new();
        assert(strs(no_features@) =~= Seq::<Seq<char>>::empty());
        let u = AstItem { name, shape: Shape::Union(variants), features: no_features, eos_full: false };
        let ghost gu = u;
        items.push(u);
        let ghost rest = inline@;
        items.append(&mut inline);
        proof {
            let head = ItemSpec {
                name: name@,
                shape: ShapeSpec::Union(eos_union(done)),
                full: false,
                features: Seq::empty(),
            };
            let all = seq![head] + eos_inline(done);
            assert(items@ =~= seq![gu] + rest);
            assert forall|j: int| 0 <= j < all.len() implies item_match(#[trigger] items@[j], all[j]) by {
                if j > 0 {
                    assert(items@[j] == rest[j - 1]);
                }
            }
        }
        Some(AstEnumOfStructs(items))
    }
}

/// A declaration file's part in the schema, in the order of the file.
pub enum Entry {
    /// A module declared in a file of its own beside this one, with the guards
    /// that hold inside it.
    Module { name: String, features: Vec<String> },
    /// The declarations of one invocation, guarded.
    Items(Vec<AstItem>),
}

/// Why a declaration file could not be read.
pub enum ExtractError {
    /// The tokens do not form a sequence of items.
    Malformed,
    /// The invocation of the named form does not parse.
    Form(String),
}

/// The modules that hold earlier output rather than declarations.
pub open spec fn ignored_mod(name: Seq<char>) -> bool {
    name == "fold"@ || name == "visit"@ || name == "visit_mut"@
}

fn is_ignored_mod(name: &String) -> (r: bool)
    ensures
        r == ignored_mod(name@),
{
    crate::text::str_eq(name.as_str(), "fold") || crate::text::str_eq(name.as_str(), "visit")
        || crate::text::str_eq(name.as_str(), "visit_mut")
}

/// The guards `outer` stand together, in order, among the guards `f`.
pub open spec fn holds_guards(f: Seq<String>, outer: Seq<String>) -> bool {
    exists|k: int| 0 <= k && k + outer.len() <= f.len() && #[trigger] f.subrange(k, k + outer.len()) == outer
}

/// Adds the guards `f` after the declaration's own.
fn add_guards(it: &mut AstItem, f: &Vec<String>)
    ensures
        final(it).features@ == old(it).features@ + f@,
        final(it).name == old(it).name,
        final(it).shape == old(it).shape,
        final(it).eos_full == old(it).eos_full,
{
    let mut j: usize = 0;
    while j < f.len()
        invariant
            j <= f@.len(),
            it.features@ == old(it).features@ + f@.subrange(0, j as int),
            it.name == old(it).name,
            it.shape == old(it).shape,
            it.eos_full == old(it).eos_full,
        decreases f.len() - j,
    {
        it.features.push(f[j].clone());
        assert(it.features@ =~= old(it).features@ + f@.subrange(0, j + 1));
        j = j + 1;
    }
    assert(f@.subrange(0, f@.len() as int) =~= f@);
}

/// Adds the guards `f` after each declaration's own.
fn with_features(items: Vec<AstItem>, f: &Vec<String>) -> (r: Vec<AstItem>)
    ensures
        r@.len() == items@.len(),
        forall|k: int|
            0 <= k < r@.len() ==> (#[trigger] r@[k]).features@ == items@[k].features@ + f@ && r@[k].name
                == items@[k].name && r@[k].shape == items@[k].shape && r@[k].eos_full == items@[k].eos_full,
{
    let mut out: Vec<AstItem> = Vec::new();
    let mut items = items;
    let ghost orig = items@;
    let total = items.len();
    let mut k: usize = 0;
    while items.len() > 0
        invariant
            total == orig.len(),
            k + items@.len() == orig.len(),
            items@ == orig.subrange(k as int, orig.len() as int),
            out@.len() == k,
            forall|j: int|
                0 <= j < k ==> (#[trigger] out@[j]).features@ == orig[j].features@ + f@ && out@[j].name
                    == orig[j].name && out@[j].shape == orig[j].shape && out@[j].eos_full == orig[j].eos_full,
        decreases items.len(),
    {
        let mut it = items.remove(0);
        assert(it == orig[k as int]);
        add_guards(&mut it, f);
        out.push(it);
        k = k + 1;
        assert(items@ =~= orig.subrange(k as int, orig.len() as int));
    }
    out
}

/// Each declaration with the guards `g` added after its own.
pub open spec fn with_guards(ss: Seq<ItemSpec>, g: Seq<Seq<char>>) -> Seq<ItemSpec> {
    ss.map_values(|s: ItemSpec| ItemSpec { features: s.features + g, ..s })
}

proof fn lemma_with_guards(its: Seq<AstItem>, out: Seq<AstItem>, ss: Seq<ItemSpec>, f: Seq<String>)
    requires
        items_match(its, ss),
        out.len() == its.len(),
        forall|k: int|
            0 <= k < out.len() ==> (#[trigger] out[k]).features@ == its[k].features@ + f && out[k].name
                == its[k].name && out[k].shape == its[k].shape && out[k].eos_full == its[k].eos_full,
    ensures
        items_match(out, with_guards(ss, strs(f))),
{
    assert forall|k: int| 0 <= k < ss.len() implies item_match(#[trigger] out[k], with_guards(ss, strs(f))[k]) by {
        assert(item_match(its[k], ss[k]));
        assert(strs(out[k].features@) =~= strs(its[k].features@) + strs(f));
    }
}

/// The position just after the item that starts at `k`: after its first `;`
/// outside any group, or after its first braced group.
pub open spec fn skip_from(toks: Seq<Tok>, k: int, hi: int) -> Option<int>
    decreases hi - k,
{
    if k < 0 || k >= hi || k >= toks.len() {
        Some(hi)
    } else {
        match toks[k] {
            Tok::Punct(c) => if c == ';' {
                Some(k + 1)
            } else {
                skip_from(toks, k + 1, hi)
            },
            Tok::Open(d) => match group_close(toks, k, hi) {
                Some(e) => if !(k < e < hi) {
                    None
                } else if d == Delim::Brace {
                    Some(
                        if e + 1 < hi && punct_at(toks, e + 1, ';') {
                            e + 2
                        } else {
                            e + 1
                        },
                    )
                } else {
                    skip_from(toks, e + 1, hi)
                },
                None => None,
            },
            Tok::Close(_) => None,
            _ => skip_from(toks, k + 1, hi),
        }
    }
}

/// An item that is none of the forms starts with a keyword, and something
/// stands between the keyword and the item's end.
pub open spec fn other_item_start(toks: Seq<Tok>, s: int, n: int) -> bool {
    0 <= s && s + 1 < n && n <= toks.len() && toks[s] is Ident && !punct_at(toks, s + 1, ';') && !open_at(
        toks,
        s + 1,
        Delim::Brace,
    )
}

fn is_other_item_start(toks: &Vec<Tok>, s: usize, n: usize) -> (r: bool)
    requires
        n <= toks@.len(),
    ensures
        r == other_item_start(toks@, s as int, n as int),
{
    if s >= n || n - s < 2 {
        return false;
    }
    match &toks[s] {
        Tok::Ident(_) => !is_punct(toks, s + 1, n, ';') && !is_open(toks, s + 1, n, Delim::Brace),
        _ => false,
    }
}

/// The position just after the item that starts at `i`.
fn skip_item(toks: &Vec<Tok>, i: usize, hi: usize) -> (r: Option<usize>)
    requires
        i < hi <= toks@.len(),
    ensures
        match r {
            Some(j) => skip_from(toks@, i as int, hi as int) == Some(j as int),
            None => skip_from(toks@, i as int, hi as int) is None,
        },
        r matches Some(j) ==> i < j <= hi,
{
    let mut k: usize = i;
    while k < hi
        invariant
            i <= k <= hi,
            hi <= toks@.len(),
            skip_from(toks@, i as int, hi as int) == skip_from(toks@, k as int, hi as int),
        decreases hi - k,
    {
        match &toks[k] {
            Tok::Punct(c) => {
                if *c == ';' {
                    return Some(k + 1);
                }
                k = k + 1;
            },
            Tok::Open(d) => {
                let brace = *d == Delim::Brace;
                match group_end(toks, k, hi) {
                    Some(e) => {
                        if brace {
                            if is_punct(toks, e + 1, hi, ';') {
                                return Some(e + 2);
                            }
                            return Some(e + 1);
                        }
                        k = e + 1;
                    },
                    None => return None,
                }
            },
            Tok::Close(_) => return None,
            _ => {
                k = k + 1;
            },
        }
    }
    Some(hi)
}

/// A file's part as the grammar reads it.
pub ghost enum EntrySpec {
    Module(Seq<char>, Seq<Seq<char>>),
    Items(Seq<ItemSpec>),
}

/// `done` in front of what `rest` holds, if it is no failure.
pub open spec fn prepend_entries(done: Seq<EntrySpec>, rest: Result<Seq<EntrySpec>, Option<Seq<char>>>) -> Result<
    Seq<EntrySpec>,
    Option<Seq<char>>,
> {
    match rest {
        Ok(x) => Ok(done + x),
        Err(e) => Err(e),
    }
}

/// The form invoked at `s`, whose group ends at `e`: what its contents parse
/// to, and its name; `None` for a macro that is none of the three forms.
pub open spec fn form_of(toks: Seq<Tok>, s: int, e: int) -> Option<(Option<Seq<ItemSpec>>, Seq<char>)> {
    if ident_at(toks, s, "ast_struct"@) {
        Some((ast_struct_of(toks, s + 3, e), "ast_struct"@))
    } else if ident_at(toks, s, "ast_enum"@) {
        Some((ast_enum_of(toks, s + 3, e), "ast_enum"@))
    } else if ident_at(toks, s, "ast_enum_of_structs"@) {
        Some((ast_enum_of_structs_of(toks, s + 3, e), "ast_enum_of_structs"@))
    } else {
        None
    }
}

/// The item that starts at `i`, read under the guards `outer`: the entries it
/// gives and the position after it, or the failure it causes (`None` where the
/// tokens do not form an item, the form's name where an invocation does not
/// parse). An inner attribute gives nothing. Attributes that end the file end
/// it. A module declared `mod m;` is named with `outer` followed by its own
/// `cfg` attributes, unless it holds earlier output; an inline module gives
/// nothing. An invocation of one of the three forms gives its declarations,
/// each guarded by its own guards, then `outer`, then the invocation's `cfg`
/// attributes. Any other item gives nothing, where it starts with a keyword
/// that something follows before its end.
#[verifier::opaque]
pub open spec fn item_at(toks: Seq<Tok>, i: int, n: int, outer: Seq<Seq<char>>) -> Result<
    (Seq<EntrySpec>, int),
    Option<Seq<char>>,
> {
    if (i + 1 < n && punct_at(toks, i, '#')) && punct_at(toks, i + 1, '!') && (i + 2 < n && open_at(
        toks,
        i + 2,
        Delim::Bracket,
    )) {
        match group_close(toks, i + 2, n) {
            Some(e) => if i < e < n {
                Ok((Seq::empty(), e + 1))
            } else {
                Err(None)
            },
            None => Err(None),
        }
    } else {
        let a = attrs_end(toks, i, n);
        let g = outer + cfg_texts(toks, i, n);
        if a >= n {
            Ok((Seq::empty(), n))
        } else {
            let s = vis_end(toks, a, n);
            if s < i || s >= n {
                Err(None)
            } else if ident_at(toks, s, "mod"@) {
                if !(s + 1 < n && s + 1 < toks.len() && toks[s + 1] is Ident) {
                    Err(None)
                } else if s + 2 < n && punct_at(toks, s + 2, ';') {
                    let name = toks[s + 1]->Ident_0@;
                    if ignored_mod(name) {
                        Ok((Seq::empty(), s + 3))
                    } else {
                        Ok((seq![EntrySpec::Module(name, g)], s + 3))
                    }
                } else if s + 2 < n && open_at(toks, s + 2, Delim::Brace) {
                    match group_close(toks, s + 2, n) {
                        Some(e) => if s < e < n {
                            Ok((Seq::empty(), e + 1))
                        } else {
                            Err(None)
                        },
                        None => Err(None),
                    }
                } else {
                    Err(None)
                }
            } else if (s + 1 < n && punct_at(toks, s + 1, '!')) && s + 2 < n && (open_at(toks, s + 2, Delim::Brace)
                || open_at(toks, s + 2, Delim::Paren) || open_at(toks, s + 2, Delim::Bracket)) {
                match group_close(toks, s + 2, n) {
                    None => Err(None),
                    Some(e) => if !(s < e < n) {
                        Err(None)
                    } else {
                        let next = if e + 1 < n && punct_at(toks, e + 1, ';') {
                            e + 2
                        } else {
                            e + 1
                        };
                        match form_of(toks, s, e) {
                            Some((Some(ss), _)) => Ok((seq![EntrySpec::Items(with_guards(ss, g))], next)),
                            Some((None, f)) => Err(Some(f)),
                            None => Ok((Seq::empty(), next)),
                        }
                    },
                }
            } else {
                if !other_item_start(toks, s, n) {
                    Err(None)
                } else {
                    match skip_from(toks, s, n) {
                        Some(j) => Ok((Seq::empty(), j)),
                        None => Err(None),
                    }
                }
            }
        }
    }
}

/// What a file holds from `i` on, read under the guards `outer`: the entries
/// of its items in order, or the failure that stops it.
#[verifier::opaque]
pub open spec fn file_from(toks: Seq<Tok>, i: int, n: int, outer: Seq<Seq<char>>) -> Result<
    Seq<EntrySpec>,
    Option<Seq<char>>,
>
    decreases n - i,
{
    if i < 0 || i >= n || n > toks.len() {
        Ok(Seq::empty())
    } else {
        match item_at(toks, i, n, outer) {
            Ok((more, j)) => if i < j <= n {
                prepend_entries(more, file_from(toks, j, n, outer))
            } else {
                Err(None)
            },
            Err(e) => Err(e),
        }
    }
}

proof fn lemma_file_step(toks: Seq<Tok>, i: int, n: int, outer: Seq<Seq<char>>)
    ensures
        0 <= i < n <= toks.len() ==> file_from(toks, i, n, outer) == match item_at(toks, i, n, outer) {
            Ok((more, j)) => if i < j <= n {
                prepend_entries(more, file_from(toks, j, n, outer))
            } else {
                Err(None)
            },
            Err(e) => Err(e),
        },
        i >= n ==> file_from(toks, i, n, outer) == Ok::<Seq<EntrySpec>, Option<Seq<char>>>(Seq::empty()),
{
    reveal(file_from);
}

/// The entry `en` is `s`.
pub open spec fn entry_match(en: Entry, s: EntrySpec) -> bool {
    match (en, s) {
        (Entry::Module { name, features }, EntrySpec::Module(n, g)) => name@ == n && strs(features@) == g,
        (Entry::Items(its), EntrySpec::Items(ss)) => items_match(its@, ss),
        _ => false,
    }
}

/// The entries `es` are `ss`, in order.
pub open spec fn entries_match(es: Seq<Entry>, ss: Seq<EntrySpec>) -> bool {
    es.len() == ss.len() && forall|k: int| 0 <= k < ss.len() ==> entry_match(#[trigger] es[k], ss[k])
}

/// Parses the invocation at `s`, whose group ends at `e`, where it is one of
/// the three forms.
fn parse_invocation(toks: &Vec<Tok>, s: usize, e: usize) -> (r: Result<Option<Vec<AstItem>>, ExtractError>)
    requires
        s + 3 <= e <= toks@.len(),
    ensures
        match form_of(toks@, s as int, e as int) {
            None => r matches Ok(None),
            Some((Some(ss), _)) => r matches Ok(Some(its)) && items_match(its@, ss),
            Some((None, f)) => r matches Err(ExtractError::Form(g)) && g@ == f,
        },
{
    let n = toks.len();
    if is_ident(toks, s, n, "ast_struct") {
        match AstStruct::parse(toks, s + 3, e) {
            Some(x) => Ok(Some(x.0)),
            None => Err(ExtractError::Form("ast_struct".to_string())),
        }
    } else if is_ident(toks, s, n, "ast_enum") {
        match AstEnum::parse(toks, s + 3, e) {
            Some(x) => Ok(Some(x.0)),
            None => Err(ExtractError::Form("ast_enum".to_string())),
        }
    } else if is_ident(toks, s, n, "ast_enum_of_structs") {
        match AstEnumOfStructs::parse(toks, s + 3, e) {
            Some(x) => Ok(Some(x.0)),
            None => Err(ExtractError::Form("ast_enum_of_structs".to_string())),
        }
    } else {
        Ok(None)
    }
}

/// Reads the item that starts at `i`, adding its entries to `out`, as
/// `item_at` describes.
#[verifier::rlimit(50)]
fn load_item(toks: &Vec<Tok>, features: &Vec<String>, i: usize, out: &mut Vec<Entry>, Ghost(done): Ghost<
    Seq<EntrySpec>,
>) -> (r: (Result<usize, ExtractError>, Ghost<Seq<EntrySpec>>))
    requires
        i < toks@.len(),
        entries_match(old(out)@, done),
    ensures
        match r.0 {
            Ok(j) => i < j <= toks@.len() && item_at(toks@, i as int, toks@.len() as int, strs(features@)) == Ok::<
                (Seq<EntrySpec>, int),
                Option<Seq<char>>,
            >((r.1@, j as int)) && entries_match(final(out)@, done + r.1@),
            Err(ExtractError::Malformed) => item_at(toks@, i as int, toks@.len() as int, strs(features@)) == Err::<
                (Seq<EntrySpec>, int),
                Option<Seq<char>>,
            >(None),
            Err(ExtractError::Form(f)) => item_at(toks@, i as int, toks@.len() as int, strs(features@)) == Err::<
                (Seq<EntrySpec>, int),
                Option<Seq<char>>,
            >(Some(f@)),
        },
{
    let n = toks.len();
    let ghost nothing: Seq<EntrySpec> = Seq::empty();
    assert(done + nothing =~= done);
    reveal(item_at);
    if is_punct(toks, i, n, '#') && is_punct(toks, i + 1, n, '!') && is_open(toks, i + 2, n, Delim::Bracket) {
        return match group_end(toks, i + 2, n) {
            Some(e) => (Ok(e + 1), Ghost(nothing)),
            None => (Err(ExtractError::Malformed), Ghost(nothing)),
        };
    }
    let mut attrs: Vec<String> = features.clone();
    assert(attrs@ == features@);
    let a = parse_attrs(toks, i, n, &mut attrs);
    let ghost g = strs(attrs@);
    if a == n {
        return (Ok(n), Ghost(nothing));
    }
    let s = skip_vis(toks, a, n);
    if s == n {
        return (Err(ExtractError::Malformed), Ghost(nothing));
    }
    if is_ident(toks, s, n, "mod") {
        let name = if s + 1 < n {
            match &toks[s + 1] {
                Tok::Ident(x) => x.clone(),
                _ => return (Err(ExtractError::Malformed), Ghost(nothing)),
            }
        } else {
            return (Err(ExtractError::Malformed), Ghost(nothing));
        };
        if is_punct(toks, s + 2, n, ';') {
            if is_ignored_mod(&name) {
                return (Ok(s + 3), Ghost(nothing));
            }
            let ghost es = EntrySpec::Module(name@, g);
            let ghost before = out@;
            out.push(Entry::Module { name, features: attrs });
            proof {
                assert forall|k: int| 0 <= k < done.len() + 1 implies entry_match(
                    #[trigger] out@[k],
                    (done + seq![es])[k],
                ) by {
                    if k < done.len() {
                        assert(out@[k] == before[k]);
                    }
                }
            }
            let ghost more = seq![es];
            (Ok(s + 3), Ghost(more))
        } else if is_open(toks, s + 2, n, Delim::Brace) {
            match group_end(toks, s + 2, n) {
                Some(e) => (Ok(e + 1), Ghost(nothing)),
                None => (Err(ExtractError::Malformed), Ghost(nothing)),
            }
        } else {
            (Err(ExtractError::Malformed), Ghost(nothing))
        }
    } else if is_punct(toks, s + 1, n, '!') && (is_open(toks, s + 2, n, Delim::Brace) || is_open(toks, s + 2, n, Delim::Paren)
        || is_open(toks, s + 2, n, Delim::Bracket)) {
        let e = match group_end(toks, s + 2, n) {
            Some(e) => e,
            None => return (Err(ExtractError::Malformed), Ghost(nothing)),
        };
        let found = match parse_invocation(toks, s, e) {
            Ok(f) => f,
            Err(err) => return (Err(err), Ghost(nothing)),
        };
        let mut j = e + 1;
        if is_punct(toks, j, n, ';') {
            j = j + 1;
        }
        match found {
            Some(its) => {
                let ghost ss = form_of(toks@, s as int, e as int)->Some_0.0->Some_0;
                let ghost before_its = its@;
                let guarded = with_features(its, &attrs);
                let ghost es = EntrySpec::Items(with_guards(ss, g));
                let ghost before = out@;
                proof {
                    lemma_with_guards(before_its, guarded@, ss, attrs@);
                }
                out.push(Entry::Items(guarded));
                proof {
                    assert forall|k: int| 0 <= k < done.len() + 1 implies entry_match(
                        #[trigger] out@[k],
                        (done + seq![es])[k],
                    ) by {
                        if k < done.len() {
                            assert(out@[k] == before[k]);
                        }
                    }
                }
                let ghost more = seq![es];
                (Ok(j), Ghost(more))
            },
            None => (Ok(j), Ghost(nothing)),
        }
    } else {
        if !is_other_item_start(toks, s, n) {
            return (Err(ExtractError::Malformed), Ghost(nothing));
        }
        match skip_item(toks, s, n) {
            Some(j) => (Ok(j), Ghost(nothing)),
            None => (Err(ExtractError::Malformed), Ghost(nothing)),
        }
    }
}

/// Reads the declarations of a file, given as tokens, under the guards
/// `features` that hold for the whole file, as `file_from` describes.
pub fn load_file(toks: &Vec<Tok>, features: &Vec<String>) -> (r: Result<Vec<Entry>, ExtractError>)
    ensures
        match file_from(toks@, 0, toks@.len() as int, strs(features@)) {
            Ok(ss) => r matches Ok(es) && entries_match(es@, ss),
            Err(None) => r matches Err(ExtractError::Malformed),
            Err(Some(f)) => r matches Err(ExtractError::Form(g)) && g@ == f,
        },
{
    let n = toks.len();
    let ghost outer = strs(features@);
    let mut out: Vec<Entry> = Vec::new();
    let mut i: usize = 0;
    let ghost mut done: Seq<EntrySpec> = Seq::empty();
    assert(prepend_entries(done, file_from(toks@, 0, n as int, outer)) =~= file_from(toks@, 0, n as int, outer)) by {
        match file_from(toks@, 0, n as int, outer) {
            Ok(x) => assert(done + x =~= x),
            Err(_) => {},
        }
    }
    while i < n
        invariant
            i <= n,
            n == toks@.len(),
            outer == strs(features@),
            file_from(toks@, 0, n as int, outer) == prepend_entries(done, file_from(toks@, i as int, n as int, outer)),
            entries_match(out@, done),
        decreases n - i,
    {
        let (step, more) = load_item(toks, features, i, &mut out, Ghost(done));
        proof {
            lemma_file_step(toks@, i as int, n as int, outer);
        }
        match step {
            Ok(j) => {
                proof {
                    match file_from(toks@, j as int, n as int, outer) {
                        Ok(x) => assert(done + (more@ + x) =~= (done + more@) + x),
                        Err(_) => {},
                    }
                    done = done + more@;
                }
                i = j;
            },
            Err(e) => return Err(e),
        }
    }
    proof {
        lemma_file_step(toks@, i as int, n as int, outer);
    }
    assert(done + Seq::<EntrySpec>::empty() =~= done);
    Ok(out)
}

} // verus!
