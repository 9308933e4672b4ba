//! Hierarchical addressing of nodes in a compiled story graph.
//!
//! A textual path is a dot-separated list of tokens, optionally led by a dot
//! that marks the path as relative.  A token of pure digits (whose value fits
//! a `usize`) addresses a child by position, the token `^` steps up to the
//! parent, and any other token addresses a named child.

use vstd::prelude::*;
use vstd::string::StrSliceExecFns;
use vstd::string::StringExecFns;

verus! {

/// One addressing step of a `Path`: an ordinal child position, a named
/// lookup, or a step up to the parent container (written `^`).
#[derive(Debug, Clone)]
pub enum Fragment {
    Index(usize),
    Name(String),
    Parent,
}

/// An ordered sequence of fragments plus a relative/absolute marker.
#[derive(Debug, Clone)]
pub struct Path {
    pub fragments: Vec<Fragment>,
    pub is_relative: bool,
}

/// The error of the checked conversion from text, `Path::try_from_str`.
/// Only the empty string is rejected, so this error is distinct from every
/// other failure the library reports.
#[derive(Debug, Clone, PartialEq, Eq, Structural)]
pub struct PathError;

pub open spec fn is_digit(c: char) -> bool {
    48 <= c as u32 && c as u32 <= 57
}

pub open spec fn digit_val(c: char) -> nat {
    (c as u32 - 48) as nat
}

pub open spec fn digit_char(d: nat) -> char {
    ((d + 48) as u8) as char
}

pub open spec fn all_digits(w: Seq<char>) -> bool {
    forall|i: int| 0 <= i < w.len() ==> is_digit(w[i])
}

/// Numeric value of a digit string, most significant digit first.
pub open spec fn token_val(w: Seq<char>) -> nat
    decreases w.len(),
{
    if w.len() == 0 {
        0
    } else {
        token_val(w.drop_last()) * 10 + digit_val(w.last())
    }
}

/// Canonical decimal rendering of a number: no sign, no leading zeros.
pub open spec fn dec_str(n: nat) -> Seq<char>
    decreases n,
{
    if n < 10 {
        seq![digit_char(n)]
    } else {
        dec_str(n / 10).push(digit_char(n % 10))
    }
}

/// A token the parser reads as an `Index`: nonempty, all digits, and a value
/// a `usize` can hold.
pub open spec fn is_index_token(w: Seq<char>) -> bool {
    w.len() > 0 && all_digits(w) && token_val(w) <= usize::MAX as nat
}

pub open spec fn is_parent_token(w: Seq<char>) -> bool {
    w.len() == 1 && w[0] == '^'
}

/// How one fragment corresponds to one dot-separated token of the text form.
pub open spec fn frag_matches_token(f: Fragment, w: Seq<char>) -> bool {
    if is_index_token(w) {
        f matches Fragment::Index(n) && n as nat == token_val(w)
    } else if is_parent_token(w) {
        f is Parent
    } else {
        f matches Fragment::Name(s) && s@ == w
    }
}

proof fn lemma_token_val_step(w: Seq<char>, k: int)
    requires
        0 <= k < w.len(),
    ensures
        token_val(w.take(k + 1)) == token_val(w.take(k)) * 10 + digit_val(w[k]),
{
    assert(w.take(k + 1).drop_last() =~= w.take(k));
    assert(w.take(k + 1).last() == w[k]);
}

proof fn lemma_token_val_prefix(w: Seq<char>, k: int)
    requires
        0 <= k <= w.len(),
    ensures
        token_val(w) >= token_val(w.take(k)),
    decreases w.len() - k,
{
    if k < w.len() {
        lemma_token_val_step(w, k);
        assert(token_val(w.take(k)) * 10 >= token_val(w.take(k))) by (nonlinear_arith);
        lemma_token_val_prefix(w, k + 1);
    } else {
        assert(w.take(k) =~= w);
    }
}

fn token_all_digits(tok: &str) -> (r: bool)
    ensures
        r == (tok@.len() > 0 && all_digits(tok@)),
{
    let n = tok.unicode_len();
    if n == 0 {
        return false;
    }
    let mut i: usize = 0;
    while i < n
        invariant
            0 <= i <= n,
            n == tok@.len(),
            forall|j: int| 0 <= j < i ==> is_digit(tok@[j]),
        decreases n - i,
    {
        let c = tok.get_char(i);
        let code = c as u32;
        if code < 48 || code > 57 {
            return false;
        }
        i = i + 1;
    }
    true
}

fn token_index_value(tok: &str) -> (r: Option<usize>)
    requires
        tok@.len() > 0,
        all_digits(tok@),
    ensures
        r matches Some(v) ==> token_val(tok@) <= usize::MAX as nat && v as nat == token_val(tok@),
        r is None ==> token_val(tok@) > usize::MAX as nat,
{
    let n = tok.unicode_len();
    let mut i: usize = 0;
    let mut acc: usize = 0;
    while i < n
        invariant
            0 <= i <= n,
            n == tok@.len(),
            tok@.len() > 0,
            all_digits(tok@),
            acc as nat == token_val(tok@.take(i as int)),
        decreases n - i,
    {
        let c = tok.get_char(i);
        assert(is_digit(tok@[i as int]));
        let d = (c as u32 - 48) as usize;
        proof {
            lemma_token_val_step(tok@, i as int);
        }
        let limit = (usize::MAX - d) / 10;
        if acc > limit {
            proof {
                assert(acc as nat * 10 + d as nat > usize::MAX as nat) by (nonlinear_arith)
                    requires
                        acc as nat > ((usize::MAX - d) as nat) / 10,
                        d as nat <= 9,
                        d as nat <= usize::MAX as nat,
                ;
                lemma_token_val_prefix(tok@, i as int + 1);
            }
            return None;
        }
        proof {
            assert(acc as nat * 10 + d as nat <= usize::MAX as nat) by (nonlinear_arith)
                requires
                    acc as nat <= ((usize::MAX - d) as nat) / 10,
                    d as nat <= usize::MAX as nat,
            ;
        }
        acc = acc * 10 + d;
        i = i + 1;
    }
    proof {
        assert(tok@.take(n as int) =~= tok@);
    }
    Some(acc)
}

/// The dot-separated tokens of a string, as `str::split('.')` yields them:
/// splitting the empty string gives one empty token.
pub open spec fn split_dots(s: Seq<char>) -> Seq<Seq<char>>
    decreases s.len(),
{
    if s.len() == 0 {
        seq![Seq::<char>::empty()]
    } else if s[0] == '.' {
        seq![Seq::<char>::empty()] + split_dots(s.drop_first())
    } else {
        let rest = split_dots(s.drop_first());
        seq![seq![s[0]] + rest[0]] + rest.drop_first()
    }
}

/// Tokens joined back with a dot between each neighbouring pair.
pub open spec fn join_dots(ts: Seq<Seq<char>>) -> Seq<char>
    decreases ts.len(),
{
    if ts.len() == 0 {
        Seq::empty()
    } else if ts.len() == 1 {
        ts[0]
    } else {
        join_dots(ts.drop_last()) + seq!['.'] + ts.last()
    }
}

proof fn lemma_split_dots_nonempty(s: Seq<char>)
    ensures
        split_dots(s).len() >= 1,
    decreases s.len(),
{
    if s.len() > 0 {
        lemma_split_dots_nonempty(s.drop_first());
    }
}

proof fn lemma_join_dots_prepend(t: Seq<char>, ts: Seq<Seq<char>>)
    ensures
        ts.len() == 0 ==> join_dots(seq![t] + ts) == t,
        ts.len() > 0 ==> join_dots(seq![t] + ts) == t + seq!['.'] + join_dots(ts),
    decreases ts.len(),
{
    let whole = seq![t] + ts;
    if ts.len() == 0 {
        assert(whole =~= seq![t]);
    } else if ts.len() == 1 {
        assert(whole.drop_last() =~= seq![t]);
        assert(whole.last() == ts[0]);
        assert(join_dots(seq![t]) == t);
        assert(join_dots(ts) == ts[0]);
        assert(join_dots(whole) == t + seq!['.'] + ts[0]);
    } else {
        lemma_join_dots_prepend(t, ts.drop_last());
        assert(whole.drop_last() =~= seq![t] + ts.drop_last());
        assert(whole.last() == ts.last());
        assert(join_dots(whole) == (t + seq!['.'] + join_dots(ts.drop_last())) + seq!['.']
            + ts.last());
        assert((t + seq!['.'] + join_dots(ts.drop_last())) + seq!['.'] + ts.last() =~= t
            + seq!['.'] + (join_dots(ts.drop_last()) + seq!['.'] + ts.last()));
    }
}

proof fn lemma_join_split(s: Seq<char>)
    ensures
        join_dots(split_dots(s)) == s,
    decreases s.len(),
{
    if s.len() == 0 {
    } else if s[0] == '.' {
        let rest = s.drop_first();
        lemma_join_split(rest);
        lemma_split_dots_nonempty(rest);
        lemma_join_dots_prepend(Seq::<char>::empty(), split_dots(rest));
        assert(Seq::<char>::empty() + seq!['.'] + join_dots(split_dots(rest)) =~= s);
    } else {
        let rest = s.drop_first();
        lemma_join_split(rest);
        lemma_split_dots_nonempty(rest);
        let rsplit = split_dots(rest);
        let head = seq![s[0]] + rsplit[0];
        lemma_join_dots_prepend(head, rsplit.drop_first());
        if rsplit.len() == 1 {
            assert(join_dots(rsplit) == rsplit[0]);
            assert(join_dots(split_dots(s)) == head);
            assert(head =~= s);
        } else {
            lemma_join_dots_prepend(rsplit[0], rsplit.drop_first());
            assert(rsplit =~= seq![rsplit[0]] + rsplit.drop_first());
            assert(join_dots(rsplit) == rsplit[0] + seq!['.'] + join_dots(rsplit.drop_first()));
            assert(join_dots(split_dots(s)) == head + seq!['.'] + join_dots(
                rsplit.drop_first(),
            ));
            assert(head + seq!['.'] + join_dots(rsplit.drop_first()) =~= seq![s[0]] + join_dots(
                rsplit,
            ));
            assert(seq![s[0]] + join_dots(rsplit) =~= s);
        }
    }
}

proof fn lemma_split_no_dot(t: Seq<char>)
    requires
        forall|i: int| 0 <= i < t.len() ==> t[i] != '.',
    ensures
        split_dots(t) == seq![t],
    decreases t.len(),
{
    if t.len() == 0 {
        assert(split_dots(t) =~~= seq![t]);
    } else {
        lemma_split_no_dot(t.drop_first());
        assert(split_dots(t) =~~= seq![seq![t[0]] + t.drop_first()]);
        assert(seq![t[0]] + t.drop_first() =~= t);
        assert(split_dots(t) =~~= seq![t]);
    }
}

proof fn lemma_split_dot_append(t: Seq<char>, rest: Seq<char>)
    requires
        forall|i: int| 0 <= i < t.len() ==> t[i] != '.',
    ensures
        split_dots(t + seq!['.'] + rest) == seq![t] + split_dots(rest),
    decreases t.len(),
{
    let whole = t + seq!['.'] + rest;
    if t.len() == 0 {
        assert(whole[0] == '.');
        assert(whole.drop_first() =~= rest);
        assert(split_dots(whole) =~~= seq![t] + split_dots(rest));
    } else {
        lemma_split_dot_append(t.drop_first(), rest);
        assert(whole[0] == t[0]);
        assert(whole.drop_first() =~= t.drop_first() + seq!['.'] + rest);
        let rsplit = split_dots(whole.drop_first());
        assert(rsplit == seq![t.drop_first()] + split_dots(rest));
        lemma_split_dots_nonempty(rest);
        assert(rsplit[0] == t.drop_first());
        assert(seq![t[0]] + rsplit[0] =~= t);
        assert(rsplit.drop_first() =~= split_dots(rest));
        assert(split_dots(whole) =~~= seq![t] + split_dots(rest));
    }
}

/// Classify one dot-separated token as the fragment the text grammar gives it.
fn parse_token(tok: &str) -> (r: Fragment)
    ensures
        frag_matches_token(r, tok@),
{
    if token_all_digits(tok) {
        match token_index_value(tok) {
            Some(v) => Fragment::Index(v),
            None => Fragment::Name(tok.to_owned()),
        }
    } else {
        let n = tok.unicode_len();
        if n == 1 && tok.get_char(0) == '^' {
            Fragment::Parent
        } else {
            Fragment::Name(tok.to_owned())
        }
    }
}

/// The relation between a path string and the `Path` parsed from it.
/// The token-bearing part of a path string: everything after a leading dot.
pub open spec fn path_body(s: Seq<char>) -> Seq<char> {
    if s[0] == '.' {
        s.drop_first()
    } else {
        s
    }
}

pub open spec fn parses_to(s: Seq<char>, p: Path) -> bool {
    let body = path_body(s);
    &&& s.len() > 0
    &&& p.is_relative == (s[0] == '.')
    &&& p.fragments@.len() == split_dots(body).len()
    &&& forall|i: int|
        0 <= i < split_dots(body).len() ==> frag_matches_token(
            p.fragments@[i],
            #[trigger] split_dots(body)[i],
        )
}

impl Path {
    /// Assemble a path directly from fragments.
    pub fn from_fragments(fragments: Vec<Fragment>, is_relative: bool) -> (r: Path)
        ensures
            r.fragments == fragments,
            r.is_relative == is_relative,
    {
        Path { fragments, is_relative }
    }

    /// Parse the textual form.  Only the empty string has no result; a
    /// leading dot marks the path relative, each pure-digit token becomes an
    /// `Index`, each `^` token a `Parent`, and every other token a `Name`.
    pub fn from_str(path: &str) -> (r: Option<Path>)
        ensures
            r is Some <==> path@.len() > 0,
            r matches Some(p) ==> parses_to(path@, p),
    {
        let n = path.unicode_len();
        if n == 0 {
            return None;
        }
        let is_relative = path.get_char(0) == '.';
        let start0: usize = if is_relative {
            1
        } else {
            0
        };
        let ghost body = path@.subrange(start0 as int, n as int);
        let mut fragments: Vec<Fragment> = Vec::new();
        let ghost mut tokens_done: Seq<Seq<char>> = Seq::empty();
        let mut tok_start: usize = start0;
        let mut j: usize = start0;
        proof {
            assert(Seq::<Seq<char>>::empty() + split_dots(body) =~~= split_dots(body));
        }
        while j < n
            invariant
                n == path@.len(),
                start0 <= tok_start <= j <= n,
                is_relative ==> start0 == 1,
                !is_relative ==> start0 == 0,
                body == path@.subrange(start0 as int, n as int),
                fragments@.len() == tokens_done.len(),
                forall|i: int|
                    0 <= i < tokens_done.len() ==> frag_matches_token(
                        fragments@[i],
                        #[trigger] tokens_done[i],
                    ),
                split_dots(body) == tokens_done + split_dots(
                    path@.subrange(tok_start as int, n as int),
                ),
                forall|i: int| tok_start as int <= i < j as int ==> path@[i] != '.',
            decreases n - j,
        {
            let c = path.get_char(j);
            if c == '.' {
                let tok = path.substring_char(tok_start, j);
                let frag = parse_token(tok);
                fragments.push(frag);
                proof {
                    let t = path@.subrange(tok_start as int, j as int);
                    let rest = path@.subrange(j as int + 1, n as int);
                    assert(path@.subrange(tok_start as int, n as int) =~= t + seq!['.'] + rest);
                    lemma_split_dot_append(t, rest);
                    let prev = tokens_done;
                    tokens_done = tokens_done.push(t);
                    assert(tokens_done =~= prev + seq![t]);
                    assert(prev + (seq![t] + split_dots(rest)) =~~= tokens_done + split_dots(
                        rest,
                    ));
                }
                tok_start = j + 1;
            }
            j = j + 1;
        }
        let tok = path.substring_char(tok_start, n);
        let frag = parse_token(tok);
        fragments.push(frag);
        proof {
            let t = path@.subrange(tok_start as int, n as int);
            lemma_split_no_dot(t);
            let prev = tokens_done;
            tokens_done = tokens_done.push(t);
            assert(prev + split_dots(t) =~~= tokens_done);
            if is_relative {
                assert(path@.drop_first() =~= body);
            } else {
                assert(path@.subrange(0, n as int) =~= path@);
            }
        }
        Some(Path { fragments, is_relative })
    }
}

/// Canonical text of one fragment.
pub open spec fn frag_text(f: Fragment) -> Seq<char> {
    match f {
        Fragment::Index(n) => dec_str(n as nat),
        Fragment::Name(s) => s@,
        Fragment::Parent => seq!['^'],
    }
}

/// Canonical text of a whole path: optional leading dot, fragments joined by
/// dots, `Parent` rendered as `^`.
pub open spec fn path_text(p: Path) -> Seq<char> {
    if p.is_relative {
        seq!['.'] + join_dots(p.fragments@.map_values(|f: Fragment| frag_text(f)))
    } else {
        join_dots(p.fragments@.map_values(|f: Fragment| frag_text(f)))
    }
}

fn digit_str(d: usize) -> (r: &'static str)
    requires
        d < 10,
    ensures
        r@ == seq![digit_char(d as nat)],
{
    proof {
        reveal_strlit("0");
        reveal_strlit("1");
        reveal_strlit("2");
        reveal_strlit("3");
        reveal_strlit("4");
        reveal_strlit("5");
        reveal_strlit("6");
        reveal_strlit("7");
        reveal_strlit("8");
        reveal_strlit("9");
    }
    let r = match d {
        0 => "0",
        1 => "1",
        2 => "2",
        3 => "3",
        4 => "4",
        5 => "5",
        6 => "6",
        7 => "7",
        8 => "8",
        _ => "9",
    };
    proof {
        assert(r@ =~= seq![digit_char(d as nat)]);
    }
    r
}

/// Append the canonical decimal form of `n`.
pub(crate) fn push_dec(out: &mut String, n: usize)
    ensures
        final(out)@ == old(out)@ + dec_str(n as nat),
    decreases n,
{
    if n >= 10 {
        push_dec(out, n / 10);
        out.append(digit_str(n % 10));
        proof {
            assert((old(out)@ + dec_str(n as nat / 10)) + seq![digit_char(n as nat % 10)] =~= old(
                out,
            )@ + dec_str(n as nat));
        }
    } else {
        out.append(digit_str(n));
        proof {
            assert(old(out)@ + seq![digit_char(n as nat)] =~= old(out)@ + dec_str(n as nat));
        }
    }
}

impl Path {
    /// Checked form of `from_str`: the empty string is the one input that
    /// fails, and it fails with `PathError`.
    pub fn try_from_str(path: &str) -> (r: Result<Path, PathError>)
        ensures
            r is Ok <==> path@.len() > 0,
            r matches Ok(p) ==> parses_to(path@, p),
    {
        match Path::from_str(path) {
            Some(p) => Ok(p),
            None => Err(PathError),
        }
    }

    /// Render the canonical textual form of this path.
    pub fn to_text(&self) -> (r: String)
        ensures
            r@ == path_text(*self),
    {
        let ghost texts = self.fragments@.map_values(|f: Fragment| frag_text(f));
        let mut out = String::new();
        if self.is_relative {
            out.append(".");
            proof {
                reveal_strlit(".");
            }
        }
        let ghost lead = out@;
        let mut i: usize = 0;
        while i < self.fragments.len()
            invariant
                i <= self.fragments@.len(),
                texts == self.fragments@.map_values(|f: Fragment| frag_text(f)),
                out@ == lead + join_dots(texts.take(i as int)),
            decreases self.fragments@.len() - i,
        {
            if i > 0 {
                out.append(".");
                proof {
                    reveal_strlit(".");
                }
            }
            let frag = &self.fragments[i];
            match frag {
                Fragment::Index(x) => {
                    push_dec(&mut out, *x);
                },
                Fragment::Name(s) => {
                    out.append(s.as_str());
                },
                Fragment::Parent => {
                    out.append("^");
                    proof {
                        reveal_strlit("^");
                    }
                },
            }
            proof {
                assert(texts.take(i as int + 1).drop_last() =~= texts.take(i as int));
                assert(texts.take(i as int + 1).last() == frag_text(self.fragments@[i as int]));
                if i > 0 {
                    assert(join_dots(texts.take(i as int + 1)) == join_dots(texts.take(i as int))
                        + seq!['.'] + frag_text(self.fragments@[i as int]));
                    assert(out@ =~= lead + join_dots(texts.take(i as int + 1)));
                } else {
                    assert(join_dots(texts.take(1)) == texts[0]);
                    assert(out@ =~= lead + join_dots(texts.take(1)));
                }
            }
            i = i + 1;
        }
        proof {
            assert(texts.take(i as int) =~= texts);
            if self.is_relative {
                assert(out@ =~= path_text(*self));
            } else {
                assert(lead =~= Seq::<char>::empty());
                assert(out@ =~= path_text(*self));
            }
        }
        out
    }
}

/// Two distinct characters have distinct scalar values.
proof fn proof_char_code_distinct(a: char, b: char)
    requires
        a != b,
    ensures
        a as u32 != b as u32,
{
    broadcast use vstd::utf8::char_u32_cast;

}

/// Structural sameness of two fragments, comparing strings by their text.
pub open spec fn frag_equiv(a: Fragment, b: Fragment) -> bool {
    match (a, b) {
        (Fragment::Index(x), Fragment::Index(y)) => x == y,
        (Fragment::Name(s), Fragment::Name(t)) => s@ == t@,
        (Fragment::Parent, Fragment::Parent) => true,
        _ => false,
    }
}

/// Structural sameness of two paths.
pub open spec fn path_equiv(a: Path, b: Path) -> bool {
    &&& a.is_relative == b.is_relative
    &&& a.fragments@.len() == b.fragments@.len()
    &&& forall|i: int|
        0 <= i < a.fragments@.len() ==> frag_equiv(
            #[trigger] a.fragments@[i],
            b.fragments@[i],
        )
}

impl Fragment {
    /// A copy whose sameness with the original is known to the verifier.
    pub fn duplicate(&self) -> (r: Fragment)
        ensures
            frag_equiv(*self, r),
    {
        match self {
            Fragment::Index(n) => Fragment::Index(*n),
            Fragment::Name(s) => Fragment::Name(s.clone()),
            Fragment::Parent => Fragment::Parent,
        }
    }
}

impl Fragment {
    /// Render the canonical text of this fragment alone.
    pub fn to_text(&self) -> (r: String)
        ensures
            r@ == frag_text(*self),
    {
        match self {
            Fragment::Index(n) => {
                let mut out = String::new();
                push_dec(&mut out, *n);
                out
            },
            Fragment::Name(s) => s.clone(),
            Fragment::Parent => {
                proof {
                    reveal_strlit("^");
                }
                let out = String::from_str("^");
                proof {
                    assert(out@ =~= seq!['^']);
                }
                out
            },
        }
    }
}

impl Path {
    /// A copy whose sameness with the original is known to the verifier.
    pub fn duplicate(&self) -> (r: Path)
        ensures
            path_equiv(*self, r),
    {
        let mut fragments: Vec<Fragment> = Vec::new();
        let mut i: usize = 0;
        while i < self.fragments.len()
            invariant
                i <= self.fragments@.len(),
                fragments@.len() == i,
                forall|j: int|
                    0 <= j < i ==> frag_equiv(
                        self.fragments@[j],
                        #[trigger] fragments@[j],
                    ),
            decreases self.fragments@.len() - i,
        {
            let frag = self.fragments[i].duplicate();
            fragments.push(frag);
            i = i + 1;
        }
        Path { fragments, is_relative: self.is_relative }
    }
}

proof fn lemma_digit_char_inverse(c: char)
    requires
        is_digit(c),
    ensures
        digit_char(digit_val(c)) == c,
        digit_val(c) < 10,
{
}

proof fn lemma_token_val_lower(w: Seq<char>)
    requires
        w.len() > 0,
        all_digits(w),
        w[0] != '0',
    ensures
        token_val(w) >= 1,
    decreases w.len(),
{
    if w.len() == 1 {
        assert('0' as u32 == 48);
        proof_char_code_distinct(w[0], '0');
        assert(w[0] as u32 != 48);
        assert(w.drop_last() =~= Seq::<char>::empty());
        assert(w.last() == w[0]);
        assert(digit_val(w[0]) >= 1);
    } else {
        lemma_token_val_lower(w.drop_last());
        assert(token_val(w.drop_last()) * 10 >= 10) by (nonlinear_arith)
            requires
                token_val(w.drop_last()) >= 1,
        ;
    }
}

proof fn lemma_dec_str_inverse(w: Seq<char>)
    requires
        w.len() > 0,
        all_digits(w),
        w[0] != '0' || w.len() == 1,
    ensures
        dec_str(token_val(w)) == w,
    decreases w.len(),
{
    if w.len() == 1 {
        assert(w.drop_last() =~= Seq::<char>::empty());
        assert(w.last() == w[0]);
        assert(token_val(Seq::<char>::empty()) == 0);
        assert(token_val(w) == digit_val(w[0]));
        lemma_digit_char_inverse(w[0]);
        assert(dec_str(token_val(w)) =~= w);
    } else {
        let w0 = w.drop_last();
        assert(w0[0] == w[0]);
        lemma_token_val_lower(w0);
        lemma_dec_str_inverse(w0);
        let n = token_val(w);
        lemma_digit_char_inverse(w.last());
        assert(n == token_val(w0) * 10 + digit_val(w.last()));
        assert(n >= 10 && n / 10 == token_val(w0) && n % 10 == digit_val(w.last()))
            by (nonlinear_arith)
            requires
                token_val(w0) >= 1,
                digit_val(w.last()) < 10,
                n == token_val(w0) * 10 + digit_val(w.last()),
        ;
        assert(dec_str(n) == dec_str(token_val(w0)).push(digit_char(digit_val(w.last()))));
        assert(dec_str(n) =~= w);
    }
}


proof fn lemma_dec_str_props(n: nat)
    ensures
        dec_str(n).len() > 0,
        all_digits(dec_str(n)),
        token_val(dec_str(n)) == n,
        n < 10 ==> dec_str(n).len() == 1,
        dec_str(n)[0] != '0' || n < 10,
    decreases n,
{
    if n < 10 {
        let w = dec_str(n);
        assert(w =~= seq![digit_char(n)]);
        assert(is_digit(digit_char(n)));
        assert(digit_val(digit_char(n)) == n);
        assert(w.drop_last() =~= Seq::<char>::empty());
        assert(token_val(Seq::<char>::empty()) == 0);
        assert(token_val(w) == digit_val(w.last()));
        if n > 0 {
            proof_char_code_distinct(digit_char(n), '0');
            assert(digit_char(n) as u32 == n + 48) by {
                assert(digit_val(digit_char(n)) == n);
            }
            assert(digit_char(n) != '0') by {
                if digit_char(n) == '0' {
                    assert(digit_val(digit_char(n)) == digit_val('0'));
                }
            }
        }
    } else {
        lemma_dec_str_props(n / 10);
        let w = dec_str(n);
        assert(w == dec_str(n / 10).push(digit_char(n % 10)));
        assert(w.drop_last() =~= dec_str(n / 10));
        assert(w.last() == digit_char(n % 10));
        assert(is_digit(digit_char(n % 10)));
        assert(digit_val(digit_char(n % 10)) == n % 10);
        assert(token_val(w) == token_val(dec_str(n / 10)) * 10 + (n % 10));
        assert(n / 10 * 10 + n % 10 == n) by (nonlinear_arith);
        assert(all_digits(w)) by {
            assert(forall|i: int|
                0 <= i < w.len() - 1 ==> w[i] == dec_str(n / 10)[i] && is_digit(#[trigger] w[i]));
            assert(is_digit(w[w.len() - 1]));
        }
        assert(w[0] == dec_str(n / 10)[0]);
        assert(n / 10 >= 1);
        if n / 10 < 10 {
            assert(dec_str(n / 10)[0] != '0') by {
                lemma_dec_str_props(n / 10);
            }
        }
    }
}


/// Whether the index `a` and the name `t` render as the same text, that is,
/// whether `t` is the canonical decimal form of `a`.
fn index_matches_name(a: usize, t: &str) -> (r: bool)
    ensures
        r == (dec_str(a as nat) == t@),
{
    if !token_all_digits(t) {
        proof {
            if dec_str(a as nat) == t@ {
                lemma_dec_str_props(a as nat);
            }
        }
        return false;
    }
    let n = t.unicode_len();
    if n > 1 && t.get_char(0) == '0' {
        proof {
            if dec_str(a as nat) == t@ {
                lemma_dec_str_props(a as nat);
            }
        }
        return false;
    }
    match token_index_value(t) {
        Some(v) => {
            if v == a {
                proof {
                    lemma_dec_str_inverse(t@);
                }
                true
            } else {
                proof {
                    if dec_str(a as nat) == t@ {
                        lemma_dec_str_props(a as nat);
                    }
                }
                false
            }
        },
        None => {
            proof {
                if dec_str(a as nat) == t@ {
                    lemma_dec_str_props(a as nat);
                }
            }
            false
        },
    }
}

/// Fragments compare equal exactly when their textual renderings are the
/// same: `Index(7)` equals `Name("7")`, and `Parent` equals `Name("^")`,
/// because paths key visit and turn counters by their string form.
impl PartialEq for Fragment {
    fn eq(&self, other: &Fragment) -> (r: bool) {
        match (self, other) {
            (Fragment::Index(a), Fragment::Index(b)) => {
                proof {
                    lemma_dec_str_props(*a as nat);
                    lemma_dec_str_props(*b as nat);
                }
                *a == *b
            },
            (Fragment::Name(s), Fragment::Name(t)) => s.eq(t),
            (Fragment::Index(a), Fragment::Name(t)) => index_matches_name(*a, t.as_str()),
            (Fragment::Name(t), Fragment::Index(a)) => index_matches_name(*a, t.as_str()),
            (Fragment::Parent, Fragment::Parent) => true,
            (Fragment::Parent, Fragment::Name(t)) | (Fragment::Name(t), Fragment::Parent) => {
                let r = t.unicode_len() == 1 && t.as_str().get_char(0) == '^';
                proof {
                    if r {
                        assert(t@ =~= seq!['^']);
                    }
                }
                r
            },
            (Fragment::Index(a), Fragment::Parent) | (Fragment::Parent, Fragment::Index(a)) => {
                proof {
                    lemma_dec_str_props(*a as nat);
                    if dec_str(*a as nat) == seq!['^'] {
                        assert(is_digit('^'));
                    }
                }
                false
            },
        }
    }
}

impl vstd::std_specs::cmp::PartialEqSpecImpl for Fragment {
    open spec fn obeys_eq_spec() -> bool {
        true
    }

    open spec fn eq_spec(&self, other: &Fragment) -> bool {
        frag_text(*self) == frag_text(*other)
    }
}

/// Paths compare equal when their relativity flags agree and their
/// fragments render pairwise the same.
impl PartialEq for Path {
    fn eq(&self, other: &Path) -> (r: bool) {
        if self.is_relative != other.is_relative {
            return false;
        }
        let n = self.fragments.len();
        if n != other.fragments.len() {
            return false;
        }
        let mut i: usize = 0;
        while i < n
            invariant
                i <= n,
                n == self.fragments@.len(),
                n == other.fragments@.len(),
                forall|j: int|
                    0 <= j < i ==> frag_text(#[trigger] self.fragments@[j]) == frag_text(
                        other.fragments@[j],
                    ),
            decreases n - i,
        {
            if !(self.fragments[i] == other.fragments[i]) {
                return false;
            }
            i = i + 1;
        }
        true
    }
}

impl vstd::std_specs::cmp::PartialEqSpecImpl for Path {
    open spec fn obeys_eq_spec() -> bool {
        true
    }

    open spec fn eq_spec(&self, other: &Path) -> bool {
        &&& self.is_relative == other.is_relative
        &&& self.fragments@.len() == other.fragments@.len()
        &&& forall|j: int|
            0 <= j < self.fragments@.len() ==> frag_text(#[trigger] self.fragments@[j])
                == frag_text(other.fragments@[j])
    }
}

/// Structurally same paths render to the same text: a duplicated frame or
/// thread addresses exactly what the original addressed.
pub proof fn lemma_path_equiv_same_text(a: Path, b: Path)
    requires
        path_equiv(a, b),
    ensures
        path_text(a) == path_text(b),
{
    let ta = a.fragments@.map_values(|f: Fragment| frag_text(f));
    let tb = b.fragments@.map_values(|f: Fragment| frag_text(f));
    assert forall|i: int| 0 <= i < ta.len() implies ta[i] == tb[i] by {
        assert(frag_equiv(a.fragments@[i], b.fragments@[i]));
    }
    assert(ta =~~= tb);
}

/// Every index token of `s` is in canonical decimal form: no leading zeros
/// unless the token is `0` itself.
pub open spec fn canonical_index_tokens(s: Seq<char>) -> bool {
    let body = path_body(s);
    forall|i: int|
        0 <= i < split_dots(body).len() ==> (is_index_token(#[trigger] split_dots(body)[i]) ==> (
        split_dots(body)[i][0] != '0' || split_dots(body)[i].len() == 1))
}

/// Round-trip law: rendering the path parsed from a syntactically valid
/// string reproduces that string exactly, provided every index token is
/// written canonically (`07` parses as the index `7` and so renders `7`).
pub proof fn lemma_parse_then_render_round_trip(s: Seq<char>, p: Path)
    requires
        s.len() > 0,
        parses_to(s, p),
        canonical_index_tokens(s),
    ensures
        path_text(p) == s,
{
    let body = path_body(s);
    let toks = split_dots(path_body(s));
    let texts = p.fragments@.map_values(|f: Fragment| frag_text(f));
    assert forall|i: int| 0 <= i < toks.len() implies texts[i] == toks[i] by {
        assert(frag_matches_token(p.fragments@[i], split_dots(path_body(s))[i]));
        assert(is_index_token(split_dots(path_body(s))[i]) ==> (split_dots(path_body(s))[i][0]
            != '0' || split_dots(path_body(s))[i].len() == 1));
        let w = toks[i];
        let f = p.fragments@[i];
        if is_index_token(w) {
            lemma_dec_str_inverse(w);
        } else if is_parent_token(w) {
            assert(frag_text(f) =~= w);
        }
    }
    assert(texts =~~= toks);
    lemma_join_split(body);
    if p.is_relative {
        assert(seq!['.'] + body =~= s);
    }
}

} // verus!
