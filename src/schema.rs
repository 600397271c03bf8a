use vstd::prelude::*;

verus! {

/// A generic argument of a path segment.
pub enum GenericArg {
    Type(TypeExpr),
    /// A lifetime, a constant or anything else that is no type.
    Other,
}

/// One segment of a path, with its angle-bracketed arguments (none when the
/// segment has no `<...>`).
pub struct PathSegment {
    pub ident: String,
    pub args: Vec<GenericArg>,
}

/// The declared type of a field.
pub enum TypeExpr {
    /// A plain path such as `Option<Box<Expr>>`.
    Path(Vec<PathSegment>),
    /// Any other type: a reference, a tuple, an array, a qualified path...
    Other,
}

/// A field of a record or a variant; positional fields have no name.
pub struct Field {
    pub name: Option<String>,
    pub ty: TypeExpr,
}

/// The fields of a record or of a variant.
pub enum Fields {
    Named(Vec<Field>),
    Unnamed(Vec<Field>),
    Unit,
}

/// A variant of a tagged union.
pub struct Variant {
    pub name: String,
    pub fields: Fields,
}

/// The shape of a node declaration.
pub enum Shape {
    Record(Fields),
    Union(Vec<Variant>),
}

/// One node declaration.
pub struct AstItem {
    pub name: String,
    pub shape: Shape,
    /// The conditional-compilation attributes that guard the node, outermost first.
    pub features: Vec<String>,
    /// Whether the node is only meaningful under the extended feature set.
    pub eos_full: bool,
}

/// The node declarations, ordered by name, each name at most once.
pub struct Lookup {
    pub items: Vec<AstItem>,
}

/// Lexicographic order on character sequences, by code point.
pub open spec fn seq_lt(a: Seq<char>, b: Seq<char>) -> bool
    decreases a.len(),
{
    if b.len() == 0 {
        false
    } else if a.len() == 0 {
        true
    } else if a[0] != b[0] {
        a[0] < b[0]
    } else {
        seq_lt(a.drop_first(), b.drop_first())
    }
}

/// The names of a sequence of declarations are strictly increasing.
pub open spec fn names_sorted(s: Seq<AstItem>) -> bool {
    forall|i: int, j: int| 0 <= i < j < s.len() ==> #[trigger] seq_lt(s[i].name@, s[j].name@)
}

/// The position of the declaration named `n`, if any (the first one).
pub open spec fn index_of(s: Seq<AstItem>, n: Seq<char>) -> Option<int>
    decreases s.len(),
{
    if s.len() == 0 {
        None
    } else if s[0].name@ == n {
        Some(0)
    } else {
        match index_of(s.drop_first(), n) {
            Some(i) => Some(i + 1),
            None => None,
        }
    }
}

pub proof fn lemma_index_of(s: Seq<AstItem>, n: Seq<char>)
    ensures
        match index_of(s, n) {
            Some(i) => 0 <= i < s.len() && s[i].name@ == n && forall|j: int|
                0 <= j < i ==> s[j].name@ != n,
            None => forall|j: int| 0 <= j < s.len() ==> s[j].name@ != n,
        },
    decreases s.len(),
{
    if s.len() > 0 {
        lemma_index_of(s.drop_first(), n);
        if s[0].name@ != n {
            assert forall|j: int| 1 <= j < s.len() implies s[j].name@ == s.drop_first()[j - 1].name@ by {}
        }
    }
}

/// `index_of` is the one position that holds the name.
pub proof fn lemma_index_of_is(s: Seq<AstItem>, n: Seq<char>, k: int)
    requires
        0 <= k < s.len(),
        s[k].name@ == n,
        forall|j: int| 0 <= j < k ==> s[j].name@ != n,
    ensures
        index_of(s, n) == Some(k),
{
    lemma_index_of(s, n);
}

/// No name comes before itself.
pub proof fn lemma_seq_lt_irrefl(a: Seq<char>)
    ensures
        !seq_lt(a, a),
    decreases a.len(),
{
    if a.len() > 0 {
        lemma_seq_lt_irrefl(a.drop_first());
    }
}

/// The order of names is transitive.
pub proof fn lemma_seq_lt_trans(a: Seq<char>, b: Seq<char>, c: Seq<char>)
    requires
        seq_lt(a, b),
        seq_lt(b, c),
    ensures
        seq_lt(a, c),
    decreases a.len(),
{
    if a.len() > 0 && b.len() > 0 && c.len() > 0 && a[0] == b[0] && b[0] == c[0] {
        lemma_seq_lt_trans(a.drop_first(), b.drop_first(), c.drop_first());
    }
}

/// Of two different names, one comes first.
pub proof fn lemma_seq_lt_total(a: Seq<char>, b: Seq<char>)
    ensures
        a == b || seq_lt(a, b) || seq_lt(b, a),
    decreases a.len(),
{
    if a.len() > 0 && b.len() > 0 && a[0] == b[0] {
        lemma_seq_lt_total(a.drop_first(), b.drop_first());
        if a.drop_first() == b.drop_first() {
            assert(a =~= seq![a[0]] + a.drop_first());
            assert(b =~= seq![b[0]] + b.drop_first());
        }
    } else if a.len() > 0 && b.len() > 0 {
    } else if a.len() == 0 && b.len() == 0 {
        assert(a =~= b);
    }
}

/// Whether `a` comes before `b` in the order of names.
pub fn name_lt(a: &str, b: &str) -> (r: bool)
    ensures
        r == seq_lt(a@, b@),
{
    let na = a.unicode_len();
    let nb = b.unicode_len();
    let mut i: usize = 0;
    assert(a@.subrange(0, na as int) =~= a@);
    assert(b@.subrange(0, nb as int) =~= b@);
    while i < na && i < nb
        invariant
            na == a@.len(),
            nb == b@.len(),
            i <= na,
            i <= nb,
            seq_lt(a@, b@) == seq_lt(a@.subrange(i as int, na as int), b@.subrange(i as int, nb as int)),
        decreases na - i,
    {
        let ca = a.get_char(i);
        let cb = b.get_char(i);
        let ghost sa = a@.subrange(i as int, na as int);
        let ghost sb = b@.subrange(i as int, nb as int);
        assert(sa[0] == ca && sb[0] == cb);
        if ca != cb {
            return ca < cb;
        }
        assert(sa.drop_first() =~= a@.subrange(i + 1, na as int));
        assert(sb.drop_first() =~= b@.subrange(i + 1, nb as int));
        i = i + 1;
    }
    i < nb
}

impl Lookup {
    /// The table is ordered by name and holds each name once.
    pub open spec fn wf(&self) -> bool {
        names_sorted(self.items@)
    }

    /// An empty table.
    pub fn new() -> (r: Self)
        ensures
            r.wf(),
            r.items@.len() == 0,
    {
        Lookup { items: Vec::new() }
    }

    /// The position of the declaration named `name`.
    pub fn find(&self, name: &str) -> (r: Option<usize>)
        ensures
            self.items@.len() <= usize::MAX,
            match r {
                Some(i) => i < self.items@.len() && index_of(self.items@, name@) == Some(i as int),
                None => index_of(self.items@, name@) is None,
            },
    {
        let mut i: usize = 0;
        while i < self.items.len()
            invariant
                i <= self.items@.len(),
                forall|j: int| 0 <= j < i ==> self.items@[j].name@ != name@,
            decreases self.items.len() - i,
        {
            if crate::text::str_eq(self.items[i].name.as_str(), name) {
                proof {
                    lemma_index_of_is(self.items@, name@, i as int);
                }
                return Some(i);
            }
            i = i + 1;
        }
        proof {
            lemma_index_of(self.items@, name@);
        }
        None
    }

    /// Adds a declaration; one of the same name is replaced by it.
    pub fn insert(&mut self, item: AstItem)
        requires
            old(self).wf(),
        ensures
            final(self).wf(),
            final(self).items@.contains(item),
            forall|x: AstItem|
                old(self).items@.contains(x) && x.name@ != item.name@
                    ==> #[trigger] final(self).items@.contains(x),
            forall|x: AstItem|
                #[trigger] final(self).items@.contains(x) ==> x == item || (old(self).items@.contains(x)
                    && x.name@ != item.name@),
            exists|i: int|
                0 <= i <= old(self).items@.len() && ({
                    ||| (i < old(self).items@.len() && old(self).items@[i].name@ == item.name@
                        && final(self).items@ == old(self).items@.update(i, item))
                    ||| (forall|j: int|
                        0 <= j < old(self).items@.len() ==> old(self).items@[j].name@
                            != item.name@) && final(self).items@ == old(self).items@.insert(
                        i,
                        item,
                    )
                }),
    {
        let ghost s = self.items@;
        let mut i: usize = 0;
        while i < self.items.len() && name_lt(self.items[i].name.as_str(), item.name.as_str())
            invariant
                self.items@ == s,
                names_sorted(s),
                i <= s.len(),
                forall|j: int| 0 <= j < i ==> seq_lt(#[trigger] s[j].name@, item.name@),
            decreases s.len() - i,
        {
            i = i + 1;
        }
        proof {
            assert forall|j: int| 0 <= j < i implies s[j].name@ != item.name@ by {
                lemma_seq_lt_irrefl(item.name@);
            }
        }
        if i < self.items.len() && crate::text::str_eq(self.items[i].name.as_str(), item.name.as_str()) {
            self.items.set(i, item);
            proof {
                assert(self.items@ == s.update(i as int, item));
                assert(self.items@[i as int] == item);
                assert forall|x: AstItem| s.contains(x) && x.name@ != item.name@ implies #[trigger] self.items@.contains(x) by {
                    let k = choose|k: int| 0 <= k < s.len() && s[k] == x;
                    assert(self.items@[k] == x);
                }
                assert forall|x: AstItem| #[trigger] self.items@.contains(x) implies x == item || (s.contains(x)
                    && x.name@ != item.name@) by {
                    let k = choose|k: int| 0 <= k < self.items@.len() && self.items@[k] == x;
                    if k != i {
                        assert(s[k] == x);
                        lemma_seq_lt_irrefl(item.name@);
                        if k < i {
                            assert(seq_lt(s[k].name@, s[i as int].name@));
                        } else {
                            assert(seq_lt(s[i as int].name@, s[k].name@));
                        }
                    }
                }
            }
        } else {
            proof {
                if i < s.len() {
                    lemma_seq_lt_total(s[i as int].name@, item.name@);
                    assert forall|j: int| i <= j < s.len() implies s[j].name@ != item.name@ by {
                        if j > i {
                            assert(seq_lt(s[i as int].name@, s[j].name@));
                            lemma_seq_lt_trans(item.name@, s[i as int].name@, s[j].name@);
                            lemma_seq_lt_irrefl(item.name@);
                        }
                    }
                }
            }
            self.items.insert(i, item);
            proof {
                let t = self.items@;
                assert(t[i as int] == item);
                assert forall|x: AstItem| #[trigger] t.contains(x) implies x == item || (s.contains(x)
                    && x.name@ != item.name@) by {
                    let k = choose|k: int| 0 <= k < t.len() && t[k] == x;
                    if k < i {
                        assert(s[k] == x);
                    } else if k > i {
                        assert(s[k - 1] == x);
                    }
                }
                assert forall|x: AstItem| s.contains(x) && x.name@ != item.name@ implies #[trigger] t.contains(x) by {
                    let k = choose|k: int| 0 <= k < s.len() && s[k] == x;
                    if k < i {
                        assert(t[k] == x);
                    } else {
                        assert(t[k + 1] == x);
                    }
                }
                assert forall|a: int, b: int| 0 <= a < b < t.len() implies #[trigger] seq_lt(t[a].name@, t[b].name@) by {
                    if b < i {
                    } else if a < i && b == i {
                    } else if a < i {
                        assert(t[b] == s[b - 1]);
                        if i < s.len() {
                            lemma_seq_lt_trans(t[a].name@, item.name@, s[i as int].name@);
                            if b - 1 > i {
                                lemma_seq_lt_trans(t[a].name@, s[i as int].name@, s[b - 1].name@);
                            }
                        }
                    } else if a == i {
                        assert(t[b] == s[b - 1]);
                        lemma_seq_lt_total(s[i as int].name@, item.name@);
                        if b - 1 > i {
                            lemma_seq_lt_trans(item.name@, s[i as int].name@, s[b - 1].name@);
                        }
                    } else {
                        assert(t[a] == s[a - 1] && t[b] == s[b - 1]);
                    }
                }
            }
        }
    }
    /// Adds declarations in order; where two share a name, the later one
    /// stays. Every declaration of the table whose name none of them has stays.
    pub fn insert_all(&mut self, items: Vec<AstItem>)
        requires
            old(self).wf(),
        ensures
            final(self).wf(),
            forall|k: int|
                0 <= k < items@.len() && (forall|m: int| k < m < items@.len() ==> items@[m].name@ != items@[k].name@)
                    ==> final(self).items@.contains(#[trigger] items@[k]),
            forall|x: AstItem|
                old(self).items@.contains(x) && (forall|m: int| 0 <= m < items@.len() ==> items@[m].name@ != x.name@)
                    ==> #[trigger] final(self).items@.contains(x),
            forall|x: AstItem|
                #[trigger] final(self).items@.contains(x) ==> (old(self).items@.contains(x) && (forall|m: int|
                    0 <= m < items@.len() ==> items@[m].name@ != x.name@)) || (exists|k: int|
                    0 <= k < items@.len() && items@[k] == x && (forall|m: int|
                        k < m < items@.len() ==> items@[m].name@ != x.name@)),
    {
        let ghost all = items@;
        let ghost start = self.items@;
        let mut items = items;
        let mut k: usize = 0;
        let total = items.len();
        assert(items@ =~= all.subrange(0, all.len() as int));
        while items.len() > 0
            invariant
                self.wf(),
                total == all.len(),
                k + items@.len() == all.len(),
                items@ == all.subrange(k as int, all.len() as int),
                forall|j: int|
                    0 <= j < k && (forall|m: int| j < m < k ==> all[m].name@ != all[j].name@)
                        ==> self.items@.contains(#[trigger] all[j]),
                forall|x: AstItem|
                    start.contains(x) && (forall|m: int| 0 <= m < k ==> all[m].name@ != x.name@)
                        ==> #[trigger] self.items@.contains(x),
                forall|x: AstItem|
                    #[trigger] self.items@.contains(x) ==> (start.contains(x) && (forall|m: int|
                        0 <= m < k ==> all[m].name@ != x.name@)) || (exists|j: int|
                        0 <= j < k && all[j] == x && (forall|m: int| j < m < k ==> all[m].name@ != x.name@)),
            decreases items.len(),
        {
            let it = items.remove(0);
            assert(it == all[k as int]);
            let ghost before = self.items@;
            self.insert(it);
            proof {
                assert forall|j: int|
                    0 <= j < k + 1 && (forall|m: int| j < m < k + 1 ==> all[m].name@ != all[j].name@)
                        implies self.items@.contains(#[trigger] all[j]) by {
                    if j < k {
                        assert(all[k as int].name@ != all[j].name@);
                        assert(before.contains(all[j]));
                    }
                }
                assert forall|x: AstItem|
                    start.contains(x) && (forall|m: int| 0 <= m < k + 1 ==> all[m].name@ != x.name@)
                        implies #[trigger] self.items@.contains(x) by {
                    assert(all[k as int].name@ != x.name@);
                    assert(before.contains(x));
                }
                assert forall|x: AstItem| #[trigger] self.items@.contains(x) implies (start.contains(x) && (forall|m: int|
                    0 <= m < k + 1 ==> all[m].name@ != x.name@)) || (exists|j: int|
                    0 <= j < k + 1 && all[j] == x && (forall|m: int| j < m < k + 1 ==> all[m].name@ != x.name@)) by {
                    if x == all[k as int] {
                        assert(0 <= k < k + 1 && all[k as int] == x);
                    } else {
                        assert(before.contains(x) && x.name@ != all[k as int].name@);
                        if start.contains(x) && (forall|m: int| 0 <= m < k ==> all[m].name@ != x.name@) {
                        } else {
                            let j = choose|j: int|
                                0 <= j < k && all[j] == x && (forall|m: int| j < m < k ==> all[m].name@ != x.name@);
                            assert(0 <= j < k + 1 && all[j] == x);
                        }
                    }
                }
            }
            k = k + 1;
            assert(items@ =~= all.subrange(k as int, all.len() as int));
        }
    }
}

} // verus!
