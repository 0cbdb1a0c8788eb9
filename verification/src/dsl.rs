//! The grammar of the process language: the `pro` notation writes a process
//! with `;` for sequence, `||` for parallel composition, `loop p`,
//! `choice p q`, `present p q` and `box p`, around Rust expressions; a
//! closure stands for the process that calls it. The `node` notation writes
//! a node with `>>` for sequence, `||` for parallel composition and
//! `choice n m`. The `mimpl` notation writes one implementation for several
//! traits.
//!
//! The functions here read token trees and return the structure the
//! notation stands for; the Rust expressions it holds are left as tokens.

use vstd::prelude::*;
use vstd::string::StringExecFns;

verus! {

/// The delimiter of a group of tokens.
#[derive(Debug, Clone, Copy, PartialEq, Eq, Structural)]
pub enum Delim {
    Paren,
    Brace,
    Bracket,
    NoDelim,
}

/// A token.
#[derive(Debug)]
pub enum Tok {
    /// `;`
    Semi,
    /// `||`
    OrOr,
    /// `|`
    Or,
    /// `>>`
    Shr,
    /// An identifier (or keyword), by its text.
    Ident(String),
    /// Any other token, by its text.
    Other(String),
}

/// A tree of tokens: a token, or a delimited group of trees.
#[derive(Debug)]
pub enum TokenTree {
    Token(Tok),
    Delimited(Delim, Vec<TokenTree>),
}

/// Whether the tree is the identifier `w`.
pub open spec fn ident_is(t: TokenTree, w: Seq<char>) -> bool {
    t matches TokenTree::Token(Tok::Ident(s)) && s@ == w
}

/// Whether the tree is the token `tok` (`;`, `||`, `|` or `>>`).
pub open spec fn token_is(t: TokenTree, tok: Tok) -> bool {
    match t {
        TokenTree::Token(x) => match (x, tok) {
            (Tok::Semi, Tok::Semi) => true,
            (Tok::OrOr, Tok::OrOr) => true,
            (Tok::Or, Tok::Or) => true,
            (Tok::Shr, Tok::Shr) => true,
            _ => false,
        },
        _ => false,
    }
}

/// A separator of the `pro` notation: `;` or `||`.
pub open spec fn pro_sep(t: TokenTree) -> bool {
    token_is(t, Tok::Semi) || token_is(t, Tok::OrOr)
}

/// A separator of the `node` notation: `>>` or `||`.
pub open spec fn node_sep(t: TokenTree) -> bool {
    token_is(t, Tok::Shr) || token_is(t, Tok::OrOr)
}

/// The index of the last separator of `ts` at its top level, or -1.
pub open spec fn last_pro_sep(ts: Seq<TokenTree>) -> int
    decreases ts.len(),
{
    if ts.len() == 0 {
        -1
    } else if pro_sep(ts.last()) {
        ts.len() - 1
    } else {
        last_pro_sep(ts.drop_last())
    }
}

/// The index of the first separator of `ts` at its top level, or -1.
pub open spec fn first_node_sep(ts: Seq<TokenTree>) -> int
    decreases ts.len(),
{
    if ts.len() == 0 {
        -1
    } else if node_sep(ts[0]) {
        0
    } else if first_node_sep(ts.drop_first()) < 0 {
        -1
    } else {
        first_node_sep(ts.drop_first()) + 1
    }
}

/// The process a `pro` expression stands for (the model of `ProExpr`).
pub enum ProSpec {
    Nothing,
    Expr(Seq<TokenTree>),
    FnMut(Seq<TokenTree>),
    FnOnce(Seq<TokenTree>),
    Loop(Box<ProSpec>),
    Boxed(Box<ProSpec>),
    Choice(Box<ProSpec>, Box<ProSpec>),
    Present(Box<ProSpec>, Box<ProSpec>),
    Sequence(Box<ProSpec>, Box<ProSpec>),
    Join(Box<ProSpec>, Box<ProSpec>),
    Error,
}

/// The process a `pro` expression stands for, built with the process
/// builders: `nothing()`, an expression, `fnmut2pro` of a closure,
/// `fnonce2pro` of a closure, `.ploop()`, `.pbox()`, `.choice(q)`, `.present(q)`, `.seq(q)`,
/// `.join(q)`; `Error` for a group delimited by brackets.
pub enum ProExpr {
    Nothing,
    Expr(Vec<TokenTree>),
    FnMut(Vec<TokenTree>),
    FnOnce(Vec<TokenTree>),
    Loop(Box<ProExpr>),
    Boxed(Box<ProExpr>),
    Choice(Box<ProExpr>, Box<ProExpr>),
    Present(Box<ProExpr>, Box<ProExpr>),
    Sequence(Box<ProExpr>, Box<ProExpr>),
    Join(Box<ProExpr>, Box<ProExpr>),
    Error,
}

impl ProExpr {
    /// The model of the expression.
    pub open spec fn view(self) -> ProSpec
        decreases self,
    {
        match self {
            ProExpr::Nothing => ProSpec::Nothing,
            ProExpr::Expr(ts) => ProSpec::Expr(ts@),
            ProExpr::FnMut(ts) => ProSpec::FnMut(ts@),
            ProExpr::FnOnce(ts) => ProSpec::FnOnce(ts@),
            ProExpr::Loop(p) => ProSpec::Loop(Box::new(p.view())),
            ProExpr::Boxed(p) => ProSpec::Boxed(Box::new(p.view())),
            ProExpr::Choice(p, q) => ProSpec::Choice(Box::new(p.view()), Box::new(q.view())),
            ProExpr::Present(p, q) => ProSpec::Present(Box::new(p.view()), Box::new(q.view())),
            ProExpr::Sequence(p, q) => ProSpec::Sequence(Box::new(p.view()), Box::new(q.view())),
            ProExpr::Join(p, q) => ProSpec::Join(Box::new(p.view()), Box::new(q.view())),
            ProExpr::Error => ProSpec::Error,
        }
    }
}

/// A Rust expression in the `pro` notation: a closure (starting with `|`
/// or `move`) stands for the process calling it, and `once E` or `val E`
/// for the process calling the closure `E` once; for the parallel flavour
/// `par`, every expression stands for itself.
pub open spec fn expr_spec(ts: Seq<TokenTree>, par: bool) -> ProSpec {
    if !par && ts.len() > 0 && (token_is(ts[0], Tok::Or) || ident_is(ts[0], "move"@)) {
        ProSpec::FnMut(ts)
    } else if !par && ts.len() > 1 && (ident_is(ts[0], "once"@) || ident_is(ts[0], "val"@)) {
        ProSpec::FnOnce(ts.drop_first())
    } else {
        ProSpec::Expr(ts)
    }
}

/// The process the tokens `ts` of a `pro` notation stand for (`par` for
/// its parallel flavour, where nothing is read as an expression, and every
/// expression stands for itself).
pub open spec fn pro_spec(ts: Seq<TokenTree>, par: bool) -> ProSpec
    decreases ts,
{
    if ts.len() == 0 {
        if par { ProSpec::Expr(ts) } else { ProSpec::Nothing }
    } else if ts.len() == 1 {
        match ts[0] {
            TokenTree::Token(_) => expr_spec(ts, par),
            TokenTree::Delimited(d, inner) => {
                if d == Delim::Paren || d == Delim::Brace {
                    proof {
                        assert(decreases_to!(ts => ts[0]));
                        assert(decreases_to!(inner => inner@));
                    }
                    pro_spec(inner@, par)
                } else {
                    ProSpec::Error
                }
            },
        }
    } else if ts.len() == 2 && ident_is(ts[0], "loop"@) {
        ProSpec::Loop(Box::new(pro_spec(ts.subrange(1, 2), par)))
    } else if ts.len() == 2 && ident_is(ts[0], "box"@) {
        ProSpec::Boxed(Box::new(pro_spec(ts.subrange(1, 2), par)))
    } else if ts.len() == 3 && ident_is(ts[0], "choice"@) {
        ProSpec::Choice(Box::new(pro_spec(ts.subrange(1, 2), par)), Box::new(pro_spec(ts.subrange(2, 3), par)))
    } else if ts.len() == 3 && ident_is(ts[0], "present"@) {
        ProSpec::Present(Box::new(pro_spec(ts.subrange(1, 2), par)), Box::new(pro_spec(ts.subrange(2, 3), par)))
    } else if 0 <= last_pro_sep(ts) < ts.len() {
        let i = last_pro_sep(ts);
        let p = pro_spec(ts.subrange(0, i), par);
        let q = pro_spec(ts.subrange(i + 1, ts.len() as int), par);
        if token_is(ts[i], Tok::Semi) {
            ProSpec::Sequence(Box::new(p), Box::new(q))
        } else {
            ProSpec::Join(Box::new(p), Box::new(q))
        }
    } else {
        expr_spec(ts, par)
    }
}

} // verus!

verus! {

/// Whether the tree is the identifier `w`.
fn is_ident(t: &TokenTree, w: &str) -> (r: bool)
    ensures
        r == ident_is(*t, w@),
{
    match t {
        TokenTree::Token(Tok::Ident(s)) => {
            let lit = String::from_str(w);
            *s == lit
        },
        _ => false,
    }
}

/// Whether the tree is a separator of the `pro` notation.
fn is_pro_sep(t: &TokenTree) -> (r: bool)
    ensures
        r == pro_sep(*t),
{
    match t {
        TokenTree::Token(Tok::Semi) => true,
        TokenTree::Token(Tok::OrOr) => true,
        _ => false,
    }
}

/// Whether the tree is a separator of the `node` notation.
fn is_node_sep(t: &TokenTree) -> (r: bool)
    ensures
        r == node_sep(*t),
{
    match t {
        TokenTree::Token(Tok::Shr) => true,
        TokenTree::Token(Tok::OrOr) => true,
        _ => false,
    }
}

/// Without separator after `m`, the last separator is the last one before `m`.
proof fn lemma_last_pro_sep(ts: Seq<TokenTree>, m: int)
    requires
        0 <= m <= ts.len(),
        forall|k: int| m <= k < ts.len() ==> !pro_sep(#[trigger] ts[k]),
    ensures
        last_pro_sep(ts) == last_pro_sep(ts.subrange(0, m)),
    decreases ts.len() - m,
{
    if m < ts.len() {
        assert(!pro_sep(ts[ts.len() - 1]));
        assert(ts.drop_last() =~= ts.subrange(0, ts.len() - 1));
        lemma_last_pro_sep(ts.drop_last(), m);
        assert(ts.drop_last().subrange(0, m) =~= ts.subrange(0, m));
    } else {
        assert(ts.subrange(0, m) =~= ts);
    }
}

/// The last separator of the `pro` notation at the top level of `ts`.
fn find_last_pro_sep(ts: &Vec<TokenTree>) -> (r: Option<usize>)
    ensures
        r is Some <==> last_pro_sep(ts@) >= 0,
        r is Some ==> r->0 == last_pro_sep(ts@) && r->0 < ts@.len(),
{
    let mut i: usize = ts.len();
    while i > 0
        invariant
            i <= ts@.len(),
            forall|k: int| i <= k < ts@.len() ==> !pro_sep(#[trigger] ts@[k]),
        decreases i,
    {
        if is_pro_sep(&ts[i - 1]) {
            proof {
                lemma_last_pro_sep(ts@, i as int);
                assert(ts@.subrange(0, i as int).last() == ts@[i - 1]);
            }
            return Some(i - 1);
        }
        i = i - 1;
    }
    proof {
        lemma_last_pro_sep(ts@, 0);
        assert(ts@.subrange(0, 0).len() == 0);
    }
    None
}

/// A Rust expression of the `pro` notation (see `expr_spec`).
pub fn parse_expr_pro(ts: Vec<TokenTree>, par: bool) -> (r: ProExpr)
    requires
        ts@.len() > 0,
    ensures
        r.view() == expr_spec(ts@, par),
{
    if !par {
        let closure = match &ts[0] {
            TokenTree::Token(Tok::Or) => true,
            t => is_ident(t, "move"),
        };
        if closure {
            return ProExpr::FnMut(ts);
        }
        if ts.len() > 1 && (is_ident(&ts[0], "once") || is_ident(&ts[0], "val")) {
            let mut ts = ts;
            let ghost all = ts@;
            ts.remove(0);
            proof { assert(ts@ =~= all.drop_first()); }
            return ProExpr::FnOnce(ts);
        }
    }
    ProExpr::Expr(ts)
}

/// Splits `ts` at the separator of index `ind`, and reads both sides.
pub fn split_on_binop(ts: Vec<TokenTree>, ind: usize, par: bool) -> (r: (ProExpr, ProExpr))
    requires
        ind < ts@.len(),
    ensures
        r.0.view() == pro_spec(ts@.subrange(0, ind as int), par),
        r.1.view() == pro_spec(ts@.subrange(ind + 1, ts@.len() as int), par),
    decreases ts@, 0nat,
{
    let ghost all = ts@;
    let mut left = ts;
    let mut right = left.split_off(ind);
    let _sep = right.remove(0);
    proof {
        assert(right@ =~= all.subrange(ind + 1, all.len() as int));
    }
    (parse_pro_gen(left, par), parse_pro_gen(right, par))
}

/// Reads the tokens of a `pro` notation (see `pro_spec`).
pub fn parse_pro_gen(ts: Vec<TokenTree>, par: bool) -> (r: ProExpr)
    ensures
        r.view() == pro_spec(ts@, par),
    decreases ts@, 1nat,
{
    let ghost all = ts@;
    let n = ts.len();
    if n == 0 {
        return if par { ProExpr::Expr(ts) } else { ProExpr::Nothing };
    }
    if n == 1 {
        let mut ts = ts;
        let t = ts.pop().unwrap();
        match t {
            TokenTree::Token(tok) => {
                let v = vec![TokenTree::Token(tok)];
                proof { assert(v@ =~= all); }
                return parse_expr_pro(v, par);
            },
            TokenTree::Delimited(d, inner) => {
                if d == Delim::Paren || d == Delim::Brace {
                    proof {
                        assert(decreases_to!(all => all[0]));
                        assert(decreases_to!(inner => inner@));
                    }
                    return parse_pro_gen(inner, par);
                } else {
                    return ProExpr::Error;
                }
            },
        }
    }
    if n == 2 && (is_ident(&ts[0], "loop") || is_ident(&ts[0], "box")) {
        let is_loop = is_ident(&ts[0], "loop");
        let mut ts = ts;
        let rest = ts.split_off(1);
        let p = Box::new(parse_pro_gen(rest, par));
        return if is_loop { ProExpr::Loop(p) } else { ProExpr::Boxed(p) };
    }
    if n == 3 && (is_ident(&ts[0], "choice") || is_ident(&ts[0], "present")) {
        let is_choice = is_ident(&ts[0], "choice");
        let mut ts = ts;
        let mut first = ts.split_off(1);
        let second = first.split_off(1);
        proof {
            assert(first@ =~= all.subrange(1, 2));
            assert(second@ =~= all.subrange(2, 3));
        }
        let p = Box::new(parse_pro_gen(first, par));
        let q = Box::new(parse_pro_gen(second, par));
        return if is_choice { ProExpr::Choice(p, q) } else { ProExpr::Present(p, q) };
    }
    match find_last_pro_sep(&ts) {
        Some(i) => {
            let semi = match &ts[i] {
                TokenTree::Token(Tok::Semi) => true,
                _ => false,
            };
            let (p, q) = split_on_binop(ts, i, par);
            if semi {
                ProExpr::Sequence(Box::new(p), Box::new(q))
            } else {
                ProExpr::Join(Box::new(p), Box::new(q))
            }
        },
        None => parse_expr_pro(ts, par),
    }
}

/// Reads the tokens of a `pro` notation.
pub fn parse_pro(ts: Vec<TokenTree>) -> (r: ProExpr)
    ensures
        r.view() == pro_spec(ts@, false),
{
    parse_pro_gen(ts, false)
}

/// Reads the tokens of a `pro` notation in its parallel flavour.
pub fn parse_pro_par(ts: Vec<TokenTree>) -> (r: ProExpr)
    ensures
        r.view() == pro_spec(ts@, true),
{
    parse_pro_gen(ts, true)
}

} // verus!

verus! {

/// The node a `node` expression stands for (the model of `NodeExpr`).
pub enum NodeSpec {
    Expr(Seq<TokenTree>),
    Alter(Box<NodeSpec>, Box<NodeSpec>),
    NSeq(Box<NodeSpec>, Box<NodeSpec>),
    NJoin(Box<NodeSpec>, Box<NodeSpec>),
    Error,
}

/// The node a `node` expression stands for, built with the node builders:
/// an expression, `.alter(m)`, `.nseq(m)`, `.njoin(m)`; `Error` for a group
/// delimited by brackets.
pub enum NodeExpr {
    Expr(Vec<TokenTree>),
    Alter(Box<NodeExpr>, Box<NodeExpr>),
    NSeq(Box<NodeExpr>, Box<NodeExpr>),
    NJoin(Box<NodeExpr>, Box<NodeExpr>),
    Error,
}

impl NodeExpr {
    /// The model of the expression.
    pub open spec fn view(self) -> NodeSpec
        decreases self,
    {
        match self {
            NodeExpr::Expr(ts) => NodeSpec::Expr(ts@),
            NodeExpr::Alter(p, q) => NodeSpec::Alter(Box::new(p.view()), Box::new(q.view())),
            NodeExpr::NSeq(p, q) => NodeSpec::NSeq(Box::new(p.view()), Box::new(q.view())),
            NodeExpr::NJoin(p, q) => NodeSpec::NJoin(Box::new(p.view()), Box::new(q.view())),
            NodeExpr::Error => NodeSpec::Error,
        }
    }
}

/// The node the tokens `ts` of a `node` notation stand for: the first
/// `>>` or `||` at the top level splits it (so both are right-associative).
pub open spec fn node_spec(ts: Seq<TokenTree>) -> NodeSpec
    decreases ts,
{
    if ts.len() == 1 {
        match ts[0] {
            TokenTree::Token(_) => NodeSpec::Expr(ts),
            TokenTree::Delimited(d, inner) => {
                if d == Delim::Paren || d == Delim::Brace {
                    proof {
                        assert(decreases_to!(ts => ts[0]));
                        assert(decreases_to!(inner => inner@));
                    }
                    node_spec(inner@)
                } else {
                    NodeSpec::Error
                }
            },
        }
    } else if ts.len() == 3 && ident_is(ts[0], "choice"@) {
        NodeSpec::Alter(Box::new(node_spec(ts.subrange(1, 2))), Box::new(node_spec(ts.subrange(2, 3))))
    } else if 0 <= first_node_sep(ts) < ts.len() {
        let i = first_node_sep(ts);
        let p = node_spec(ts.subrange(0, i));
        let q = node_spec(ts.subrange(i + 1, ts.len() as int));
        if token_is(ts[i], Tok::Shr) {
            NodeSpec::NSeq(Box::new(p), Box::new(q))
        } else {
            NodeSpec::NJoin(Box::new(p), Box::new(q))
        }
    } else {
        NodeSpec::Expr(ts)
    }
}

/// Without separator before `m`, the first separator is at `m` or after.
proof fn lemma_first_node_sep(ts: Seq<TokenTree>, m: int)
    requires
        0 <= m <= ts.len(),
        forall|k: int| 0 <= k < m ==> !node_sep(#[trigger] ts[k]),
    ensures
        m < ts.len() && node_sep(ts[m]) ==> first_node_sep(ts) == m,
        m == ts.len() ==> first_node_sep(ts) == -1,
    decreases m,
{
    if m > 0 {
        let t = ts.drop_first();
        assert forall|k: int| 0 <= k < m - 1 implies !node_sep(#[trigger] t[k]) by {
            assert(t[k] == ts[k + 1]);
        }
        if m < ts.len() {
            assert(t[m - 1] == ts[m]);
        }
        lemma_first_node_sep(t, m - 1);
    } else if ts.len() > 0 {
    }
}

/// The first separator of the `node` notation at the top level of `ts`.
fn find_first_node_sep(ts: &Vec<TokenTree>) -> (r: Option<usize>)
    ensures
        r is Some <==> first_node_sep(ts@) >= 0,
        r is Some ==> r->0 == first_node_sep(ts@) && r->0 < ts@.len(),
{
    let mut i: usize = 0;
    while i < ts.len()
        invariant
            i <= ts@.len(),
            forall|k: int| 0 <= k < i ==> !node_sep(#[trigger] ts@[k]),
        decreases ts@.len() - i,
    {
        if is_node_sep(&ts[i]) {
            proof { lemma_first_node_sep(ts@, i as int); }
            return Some(i);
        }
        i = i + 1;
    }
    proof { lemma_first_node_sep(ts@, i as int); }
    None
}

/// Splits `ts` at the separator of index `ind`, and reads both sides as
/// nodes.
pub fn split_on_binop_node(ts: Vec<TokenTree>, ind: usize) -> (r: (NodeExpr, NodeExpr))
    requires
        ind < ts@.len(),
    ensures
        r.0.view() == node_spec(ts@.subrange(0, ind as int)),
        r.1.view() == node_spec(ts@.subrange(ind + 1, ts@.len() as int)),
    decreases ts@, 0nat,
{
    let ghost all = ts@;
    let mut left = ts;
    let mut right = left.split_off(ind);
    let _sep = right.remove(0);
    proof {
        assert(right@ =~= all.subrange(ind + 1, all.len() as int));
    }
    (parse_node(left), parse_node(right))
}

/// Reads the tokens of a `node` notation (see `node_spec`).
pub fn parse_node(ts: Vec<TokenTree>) -> (r: NodeExpr)
    ensures
        r.view() == node_spec(ts@),
    decreases ts@, 1nat,
{
    let ghost all = ts@;
    let n = ts.len();
    if n == 1 {
        let mut ts = ts;
        let t = ts.pop().unwrap();
        match t {
            TokenTree::Token(tok) => {
                let v = vec![TokenTree::Token(tok)];
                proof { assert(v@ =~= all); }
                return NodeExpr::Expr(v);
            },
            TokenTree::Delimited(d, inner) => {
                if d == Delim::Paren || d == Delim::Brace {
                    proof {
                        assert(decreases_to!(all => all[0]));
                        assert(decreases_to!(inner => inner@));
                    }
                    return parse_node(inner);
                } else {
                    return NodeExpr::Error;
                }
            },
        }
    }
    if n == 3 && is_ident(&ts[0], "choice") {
        let mut ts = ts;
        let mut first = ts.split_off(1);
        let second = first.split_off(1);
        proof {
            assert(first@ =~= all.subrange(1, 2));
            assert(second@ =~= all.subrange(2, 3));
        }
        let p = Box::new(parse_node(first));
        let q = Box::new(parse_node(second));
        return NodeExpr::Alter(p, q);
    }
    match find_first_node_sep(&ts) {
        Some(i) => {
            let shr = match &ts[i] {
                TokenTree::Token(Tok::Shr) => true,
                _ => false,
            };
            let (p, q) = split_on_binop_node(ts, i);
            if shr {
                NodeExpr::NSeq(Box::new(p), Box::new(q))
            } else {
                NodeExpr::NJoin(Box::new(p), Box::new(q))
            }
        },
        None => NodeExpr::Expr(ts),
    }
}

} // verus!

verus! {

/// Why a `mimpl` notation is refused.
#[derive(Debug, Clone, Copy, PartialEq, Eq, Structural)]
pub enum MimplError {
    /// Fewer than six tokens.
    TooShort,
    /// The first token is not `impl`.
    NotImpl,
    /// Two `for` keywords.
    TwoFor,
    /// No `trait` keyword.
    NoTrait,
}

/// One implementation a `mimpl` notation stands for, by the indices of its
/// tokens: the head `impl<...>` is `[0, for_pos)`, the name of the trait
/// `[name_start, name_end)`, the rest `for Type where ...`
/// `[for_pos, first_trait)`, and the block is the token `body`.
#[derive(Debug, Clone, Copy, PartialEq, Eq, Structural)]
pub struct MimplItem {
    pub for_pos: usize,
    pub name_start: usize,
    pub name_end: usize,
    pub first_trait: usize,
    pub body: usize,
}

/// The indices, after the first one and below `n`, of the identifiers `w`
/// of `ts`, in increasing order.
pub open spec fn ident_positions(ts: Seq<TokenTree>, w: Seq<char>, n: int) -> Seq<usize>
    decreases n,
{
    if n <= 1 {
        Seq::empty()
    } else if ident_is(ts[n - 1], w) {
        ident_positions(ts, w, n - 1).push((n - 1) as usize)
    } else {
        ident_positions(ts, w, n - 1)
    }
}

/// The position of the `for` keyword of a `mimpl` notation, or 0 without one.
pub open spec fn mimpl_for(ts: Seq<TokenTree>) -> usize {
    let fors = ident_positions(ts, "for"@, ts.len() as int);
    if fors.len() == 0 { 0 } else { fors[0] }
}

/// The implementations a `mimpl` notation stands for: for each `trait`
/// keyword, the head before `for`, the tokens after the keyword but the
/// last one before the next keyword (or the end), the tokens from `for` to
/// the first `trait`, and that last token, the block.
pub open spec fn mimpl_items(ts: Seq<TokenTree>) -> Seq<MimplItem> {
    let traits = ident_positions(ts, "trait"@, ts.len() as int);
    let f = mimpl_for(ts);
    Seq::new(traits.len(), |k: int| {
        let end = if k + 1 < traits.len() { traits[k + 1] as int } else { ts.len() as int };
        MimplItem {
            for_pos: f,
            name_start: (traits[k] + 1) as usize,
            name_end: (end - 1) as usize,
            first_trait: traits[0],
            body: (end - 1) as usize,
        }
    })
}

/// What a `mimpl` notation stands for.
pub open spec fn mimpl_spec(ts: Seq<TokenTree>) -> Result<Seq<MimplItem>, MimplError> {
    if ts.len() < 6 {
        Err(MimplError::TooShort)
    } else if !ident_is(ts[0], "impl"@) {
        Err(MimplError::NotImpl)
    } else if ident_positions(ts, "for"@, ts.len() as int).len() >= 2 {
        Err(MimplError::TwoFor)
    } else if ident_positions(ts, "trait"@, ts.len() as int).len() == 0 {
        Err(MimplError::NoTrait)
    } else {
        Ok(mimpl_items(ts))
    }
}

/// The ranges of an accepted `mimpl` notation are ranges: `for` comes
/// before the first `trait`, and each `trait` is followed by a name and a
/// block before the next one.
pub open spec fn mimpl_ranges_ok(ts: Seq<TokenTree>) -> bool {
    let traits = ident_positions(ts, "trait"@, ts.len() as int);
    mimpl_spec(ts) is Ok ==> {
        &&& mimpl_for(ts) <= traits[0]
        &&& forall|k: int| 0 <= k < traits.len() ==>
            #[trigger] traits[k] + 2 <= (if k + 1 < traits.len() { traits[k + 1] as int } else { ts.len() as int })
    }
}

/// The positions are increasing indices in `[1, n)`.
proof fn lemma_ident_positions(ts: Seq<TokenTree>, w: Seq<char>, n: int)
    requires
        n <= usize::MAX + 1,
    ensures
        forall|k: int| 0 <= k < ident_positions(ts, w, n).len() ==> 1 <= #[trigger] ident_positions(ts, w, n)[k] < n,
        forall|j: int, k: int| 0 <= j < k < ident_positions(ts, w, n).len() ==>
            ident_positions(ts, w, n)[j] < ident_positions(ts, w, n)[k],
    decreases n,
{
    if n > 1 {
        lemma_ident_positions(ts, w, n - 1);
        let p = ident_positions(ts, w, n - 1);
        if ident_is(ts[n - 1], w) {
            let q = p.push((n - 1) as usize);
            assert(ident_positions(ts, w, n) == q);
            assert forall|k: int| 0 <= k < q.len() implies 1 <= #[trigger] q[k] < n by {
                if k < p.len() {
                    assert(q[k] == p[k]);
                }
            }
            assert forall|j: int, k: int| 0 <= j < k < q.len() implies q[j] < q[k] by {
                assert(q[j] == p[j]);
                if k < p.len() {
                    assert(q[k] == p[k]);
                }
            }
        }
    }
}

/// The indices, after the first one, of the identifiers `w` of `ts`, in
/// increasing order.
fn find_idents(ts: &Vec<TokenTree>, w: &str) -> (r: Vec<usize>)
    ensures
        r@ == ident_positions(ts@, w@, ts@.len() as int),
{
    let n = ts.len();
    let mut r: Vec<usize> = Vec::new();
    if n == 0 {
        proof { assert(r@ =~= ident_positions(ts@, w@, 0)); }
        return r;
    }
    let mut i: usize = 1;
    proof { assert(r@ =~= ident_positions(ts@, w@, 1)); }
    while i < n
        invariant
            n == ts@.len(),
            1 <= i <= n,
            r@ == ident_positions(ts@, w@, i as int),
        decreases n - i,
    {
        if is_ident(&ts[i], w) {
            r.push(i);
        }
        i = i + 1;
    }
    r
}

/// Whether the ranges of `ts` as a `mimpl` notation are ranges (see
/// `mimpl_ranges_ok`), which `parse_mimpl` needs.
pub fn mimpl_ranges_valid(ts: &Vec<TokenTree>) -> (r: bool)
    ensures
        r == mimpl_ranges_ok(ts@),
{
    let n = ts.len();
    if n < 6 || !is_ident(&ts[0], "impl") {
        return true;
    }
    let fors = find_idents(ts, "for");
    if fors.len() >= 2 {
        return true;
    }
    let traits = find_idents(ts, "trait");
    if traits.len() == 0 {
        return true;
    }
    proof {
        lemma_ident_positions(ts@, "for"@, n as int);
        lemma_ident_positions(ts@, "trait"@, n as int);
        assert(mimpl_spec(ts@) is Ok);
    }
    let f = if fors.len() == 0 { 0 } else { fors[0] };
    if f > traits[0] {
        return false;
    }
    let mut k: usize = 0;
    while k < traits.len()
        invariant
            n == ts@.len(),
            traits@ == ident_positions(ts@, "trait"@, n as int),
            f == mimpl_for(ts@),
            f <= traits@[0],
            traits@.len() > 0,
            mimpl_spec(ts@) is Ok,
            k <= traits@.len(),
            forall|j: int| 0 <= j < traits@.len() ==> 1 <= #[trigger] traits@[j] < n,
            forall|j: int| 0 <= j < k ==>
                #[trigger] traits@[j] + 2 <= (if j + 1 < traits@.len() { traits@[j + 1] as int } else { n as int }),
        decreases traits@.len() - k,
    {
        let end = if k + 1 < traits.len() { traits[k + 1] } else { n };
        if traits[k] >= end || end - traits[k] < 2 {
            return false;
        }
        k = k + 1;
    }
    true
}

/// Reads a `mimpl` notation (see `mimpl_spec`).
pub fn parse_mimpl(ts: &Vec<TokenTree>) -> (r: Result<Vec<MimplItem>, MimplError>)
    requires
        mimpl_ranges_ok(ts@),
    ensures
        match r {
            Ok(items) => mimpl_spec(ts@) == Ok::<Seq<MimplItem>, MimplError>(items@),
            Err(e) => mimpl_spec(ts@) == Err::<Seq<MimplItem>, MimplError>(e),
        },
{
    let n = ts.len();
    if n < 6 {
        return Err(MimplError::TooShort);
    }
    if !is_ident(&ts[0], "impl") {
        return Err(MimplError::NotImpl);
    }
    let mut forpos: usize = 0;
    let mut traitpos: Vec<usize> = Vec::new();
    let mut i: usize = 1;
    proof {
        assert(ident_positions(ts@, "for"@, 1) =~= Seq::<usize>::empty());
        assert(ident_positions(ts@, "trait"@, 1) =~= Seq::<usize>::empty());
    }
    while i < n
        invariant
            n == ts@.len(),
            n >= 6,
            ident_is(ts@[0], "impl"@),
            1 <= i <= n,
            ident_positions(ts@, "for"@, i as int).len() <= 1,
            forpos == (if ident_positions(ts@, "for"@, i as int).len() == 0 { 0 } else { ident_positions(ts@, "for"@, i as int)[0] }),
            traitpos@ == ident_positions(ts@, "trait"@, i as int),
        decreases n - i,
    {
        if is_ident(&ts[i], "for") {
            if forpos != 0 {
                proof {
                    lemma_ident_positions(ts@, "for"@, i as int);
                    let p = ident_positions(ts@, "for"@, i as int);
                    assert(p.len() == 1);
                    assert(ident_positions(ts@, "for"@, i as int + 1) == p.push(i));
                    lemma_positions_grow(ts@, "for"@, i as int + 1, n as int);
                    assert(ident_positions(ts@, "for"@, ts@.len() as int).len() >= 2);
                }
                return Err(MimplError::TwoFor);
            }
            forpos = i;
        }
        if is_ident(&ts[i], "trait") {
            traitpos.push(i);
        }
        proof {
            lemma_ident_positions(ts@, "for"@, i as int);
        }
        i = i + 1;
    }
    proof {
        assert(ident_positions(ts@, "trait"@, ts@.len() as int) == traitpos@);
        assert(forpos == mimpl_for(ts@));
    }
    if traitpos.len() == 0 {
        return Err(MimplError::NoTrait);
    }
    let ghost all = mimpl_items(ts@);
    proof {
        lemma_ident_positions(ts@, "trait"@, n as int);
        assert(mimpl_spec(ts@) is Ok);
        assert(all.len() == traitpos@.len());
    }
    let mut items: Vec<MimplItem> = Vec::new();
    let t0 = traitpos[0];
    let mut k: usize = 0;
    while k < traitpos.len()
        invariant
            n == ts@.len(),
            traitpos@ == ident_positions(ts@, "trait"@, n as int),
            all == mimpl_items(ts@),
            all.len() == traitpos@.len(),
            traitpos@.len() > 0,
            t0 == traitpos@[0],
            forpos == mimpl_for(ts@),
            k <= traitpos@.len(),
            forall|j: int| 0 <= j < k ==> items@[j] == #[trigger] all[j],
            items@.len() == k,
            forall|j: int| 0 <= j < traitpos@.len() ==> 1 <= #[trigger] traitpos@[j] < n,
            forall|j: int| 0 <= j < traitpos@.len() ==>
                #[trigger] traitpos@[j] + 2 <= (if j + 1 < traitpos@.len() { traitpos@[j + 1] as int } else { n as int }),
        decreases traitpos@.len() - k,
    {
        let beg = traitpos[k];
        let end = if k + 1 < traitpos.len() { traitpos[k + 1] } else { n };
        proof {
            assert(traitpos@[k as int] + 2 <= end);
        }
        items.push(MimplItem { for_pos: forpos, name_start: beg + 1, name_end: end - 1, first_trait: t0, body: end - 1 });
        proof {
            assert(items@[k as int] == all[k as int]);
        }
        k = k + 1;
    }
    proof {
        assert(items@ =~= all);
    }
    Ok(items)
}

/// The positions up to `m` are a prefix of the positions up to `n`.
proof fn lemma_positions_grow(ts: Seq<TokenTree>, w: Seq<char>, m: int, n: int)
    requires
        m <= n,
    ensures
        ident_positions(ts, w, m).len() <= ident_positions(ts, w, n).len(),
    decreases n - m,
{
    if m < n {
        lemma_positions_grow(ts, w, m, n - 1);
    }
}

} // verus!
