use vstd::prelude::*;

verus! {

/// The delimiter of a group.
#[derive(Clone, Copy, PartialEq, Eq, Structural)]
pub enum Delim {
    Paren,
    Bracket,
    Brace,
    Invisible,
}

/// A token of source text, with groups written as an opening and a closing
/// token around their contents.
pub enum Tok {
    Ident(String),
    Punct(char),
    Literal(String),
    Open(Delim),
    Close(Delim),
}

/// The token at `i` is the punctuation `c`.
pub open spec fn punct_at(toks: Seq<Tok>, i: int, c: char) -> bool {
    0 <= i < toks.len() && toks[i] == Tok::Punct(c)
}

/// The token at `i` is the identifier `s`.
pub open spec fn ident_at(toks: Seq<Tok>, i: int, s: Seq<char>) -> bool {
    0 <= i < toks.len() && (toks[i] matches Tok::Ident(x) && x@ == s)
}

/// The token at `i` opens a group with delimiter `d`.
pub open spec fn open_at(toks: Seq<Tok>, i: int, d: Delim) -> bool {
    0 <= i < toks.len() && toks[i] == Tok::Open(d)
}

/// Whether the token at `i` (below `hi`) is the punctuation `c`.
pub fn is_punct(toks: &Vec<Tok>, i: usize, hi: usize, c: char) -> (r: bool)
    requires
        hi <= toks@.len(),
    ensures
        r == (i < hi && punct_at(toks@, i as int, c)),
{
    if i < hi {
        match &toks[i] {
            Tok::Punct(p) => *p == c,
            _ => false,
        }
    } else {
        false
    }
}

/// Whether the token at `i` (below `hi`) is the identifier `s`.
pub fn is_ident(toks: &Vec<Tok>, i: usize, hi: usize, s: &str) -> (r: bool)
    requires
        hi <= toks@.len(),
    ensures
        r == (i < hi && ident_at(toks@, i as int, s@)),
{
    if i < hi {
        match &toks[i] {
            Tok::Ident(x) => crate::text::str_eq(x.as_str(), s),
            _ => false,
        }
    } else {
        false
    }
}

/// Whether the token at `i` (below `hi`) opens a group with delimiter `d`.
pub fn is_open(toks: &Vec<Tok>, i: usize, hi: usize, d: Delim) -> (r: bool)
    requires
        hi <= toks@.len(),
    ensures
        r == (i < hi && open_at(toks@, i as int, d)),
{
    if i < hi {
        match &toks[i] {
            Tok::Open(x) => *x == d,
            _ => false,
        }
    } else {
        false
    }
}

/// The position of the token that closes a group, scanning from `k` with
/// `depth` groups open.
pub open spec fn close_from(toks: Seq<Tok>, k: int, hi: int, depth: nat) -> Option<int>
    decreases hi - k,
{
    if k < 0 || k >= hi || k >= toks.len() {
        None
    } else {
        match toks[k] {
            Tok::Open(_) => close_from(toks, k + 1, hi, depth + 1),
            Tok::Close(_) => if depth <= 1 {
                Some(k)
            } else {
                close_from(toks, k + 1, hi, (depth - 1) as nat)
            },
            _ => close_from(toks, k + 1, hi, depth),
        }
    }
}

/// The position of the token that closes the group opened at `i`, if it
/// closes before `hi`.
pub open spec fn group_close(toks: Seq<Tok>, i: int, hi: int) -> Option<int> {
    if 0 <= i < hi && i < toks.len() && toks[i] is Open {
        close_from(toks, i + 1, hi, 1)
    } else {
        None
    }
}

/// The position of the token that closes the group opened at `i`, if it
/// closes before `hi`.
pub fn group_end(toks: &Vec<Tok>, i: usize, hi: usize) -> (r: Option<usize>)
    requires
        hi <= toks@.len(),
    ensures
        match r {
            Some(j) => group_close(toks@, i as int, hi as int) == Some(j as int),
            None => group_close(toks@, i as int, hi as int) is None,
        },
        r matches Some(j) ==> i < j < hi && toks@[i as int] is Open && toks@[j as int] is Close,
{
    if i >= hi {
        return None;
    }
    match &toks[i] {
        Tok::Open(_) => {},
        _ => return None,
    }
    let mut depth: usize = 1;
    let mut k: usize = i + 1;
    while k < hi
        invariant
            i < k <= hi,
            hi <= toks@.len(),
            1 <= depth <= k - i,
            toks@[i as int] is Open,
            group_close(toks@, i as int, hi as int) == close_from(toks@, k as int, hi as int, depth as nat),
        decreases hi - k,
    {
        match &toks[k] {
            Tok::Open(_) => {
                depth = depth + 1;
            },
            Tok::Close(_) => {
                if depth == 1 {
                    return Some(k);
                }
                depth = depth - 1;
            },
            _ => {},
        }
        k = k + 1;
    }
    None
}

/// One token as text.
pub open spec fn tok_text(t: Tok) -> Seq<char> {
    match t {
        Tok::Ident(s) => s@,
        Tok::Literal(s) => s@,
        Tok::Punct(c) => seq![c],
        Tok::Open(Delim::Paren) => "("@,
        Tok::Open(Delim::Bracket) => "["@,
        Tok::Open(Delim::Brace) => "{"@,
        Tok::Open(Delim::Invisible) => Seq::empty(),
        Tok::Close(Delim::Paren) => ")"@,
        Tok::Close(Delim::Bracket) => "]"@,
        Tok::Close(Delim::Brace) => "}"@,
        Tok::Close(Delim::Invisible) => Seq::empty(),
    }
}

/// Tokens as text, each followed by a space.
pub open spec fn toks_text(ts: Seq<Tok>) -> Seq<char>
    decreases ts.len(),
{
    if ts.len() == 0 {
        Seq::empty()
    } else {
        toks_text(ts.drop_last()) + tok_text(ts.last()) + " "@
    }
}

fn tok_string(t: &Tok) -> (r: String)
    ensures
        r@ == tok_text(*t),
{
    match t {
        Tok::Ident(s) => s.clone(),
        Tok::Literal(s) => s.clone(),
        Tok::Punct(c) => {
            let mut s = String::new();
            crate::text::push_char(&mut s, *c);
            proof {
                assert(s@ =~= seq![*c]);
            }
            s
        },
        Tok::Open(Delim::Paren) => "(".to_string(),
        Tok::Open(Delim::Bracket) => "[".to_string(),
        Tok::Open(Delim::Brace) => "{".to_string(),
        Tok::Open(Delim::Invisible) => String::new(),
        Tok::Close(Delim::Paren) => ")".to_string(),
        Tok::Close(Delim::Bracket) => "]".to_string(),
        Tok::Close(Delim::Brace) => "}".to_string(),
        Tok::Close(Delim::Invisible) => String::new(),
    }
}

/// The tokens from `lo` to `hi` as text.
pub fn toks_string(toks: &Vec<Tok>, lo: usize, hi: usize) -> (r: String)
    requires
        lo <= hi <= toks@.len(),
    ensures
        r@ == toks_text(toks@.subrange(lo as int, hi as int)),
{
    let mut s = String::new();
    let mut k: usize = lo;
    while k < hi
        invariant
            lo <= k <= hi,
            hi <= toks@.len(),
            s@ == toks_text(toks@.subrange(lo as int, k as int)),
        decreases hi - k,
    {
        assert(toks@.subrange(lo as int, k + 1).drop_last() =~= toks@.subrange(lo as int, k as int));
        let t = tok_string(&toks[k]);
        s.append(t.as_str());
        s.append(" ");
        k = k + 1;
    }
    s
}

} // verus!
