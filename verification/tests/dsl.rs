use reactive_rs2::dsl::{
    mimpl_ranges_valid, parse_mimpl, parse_node, parse_pro, parse_pro_par, split_on_binop, Delim, MimplError,
    MimplItem, NodeExpr, ProExpr, Tok, TokenTree,
};

fn id(s: &str) -> TokenTree {
    TokenTree::Token(Tok::Ident(s.to_string()))
}

fn tok(t: Tok) -> TokenTree {
    TokenTree::Token(t)
}

fn group(d: Delim, ts: Vec<TokenTree>) -> TokenTree {
    TokenTree::Delimited(d, ts)
}

fn text(ts: &[TokenTree]) -> String {
    let mut out = Vec::new();
    for t in ts {
        out.push(match t {
            TokenTree::Token(Tok::Ident(s)) => s.clone(),
            TokenTree::Token(Tok::Other(s)) => s.clone(),
            TokenTree::Token(Tok::Semi) => ";".to_string(),
            TokenTree::Token(Tok::OrOr) => "||".to_string(),
            TokenTree::Token(Tok::Or) => "|".to_string(),
            TokenTree::Token(Tok::Shr) => ">>".to_string(),
            TokenTree::Delimited(_, inner) => format!("({})", text(inner)),
        });
    }
    out.join(" ")
}

fn shape(p: &ProExpr) -> String {
    match p {
        ProExpr::Nothing => "nothing".to_string(),
        ProExpr::Expr(ts) => format!("[{}]", text(ts)),
        ProExpr::FnMut(ts) => format!("fn[{}]", text(ts)),
        ProExpr::FnOnce(ts) => format!("once[{}]", text(ts)),
        ProExpr::Loop(p) => format!("loop({})", shape(p)),
        ProExpr::Boxed(p) => format!("box({})", shape(p)),
        ProExpr::Choice(p, q) => format!("choice({},{})", shape(p), shape(q)),
        ProExpr::Present(p, q) => format!("present({},{})", shape(p), shape(q)),
        ProExpr::Sequence(p, q) => format!("seq({},{})", shape(p), shape(q)),
        ProExpr::Join(p, q) => format!("join({},{})", shape(p), shape(q)),
        ProExpr::Error => "error".to_string(),
    }
}

fn node_shape(n: &NodeExpr) -> String {
    match n {
        NodeExpr::Expr(ts) => format!("[{}]", text(ts)),
        NodeExpr::Alter(p, q) => format!("alter({},{})", node_shape(p), node_shape(q)),
        NodeExpr::NSeq(p, q) => format!("nseq({},{})", node_shape(p), node_shape(q)),
        NodeExpr::NJoin(p, q) => format!("njoin({},{})", node_shape(p), node_shape(q)),
        NodeExpr::Error => "error".to_string(),
    }
}

#[test]
fn pro_last_separator_splits() {
    // a ; b || c : the last separator splits
    let ts = vec![id("a"), tok(Tok::Semi), id("b"), tok(Tok::OrOr), id("c")];
    assert_eq!(shape(&parse_pro(ts)), "join(seq([a],[b]),[c])");
}

#[test]
fn pro_sequence_chain_is_left_nested() {
    let ts = vec![id("a"), tok(Tok::Semi), id("b"), tok(Tok::Semi), id("c")];
    assert_eq!(shape(&parse_pro(ts)), "seq(seq([a],[b]),[c])");
}

#[test]
fn pro_trailing_semicolon_adds_nothing() {
    let ts = vec![id("a"), tok(Tok::Semi)];
    assert_eq!(shape(&parse_pro(ts)), "seq([a],nothing)");
}

#[test]
fn pro_empty_is_nothing() {
    assert_eq!(shape(&parse_pro(vec![])), "nothing");
    assert_eq!(shape(&parse_pro_par(vec![])), "[]");
}

#[test]
fn pro_keywords() {
    let l = vec![id("loop"), group(Delim::Brace, vec![id("x")])];
    assert_eq!(shape(&parse_pro(l)), "loop([x])");
    let b = vec![id("box"), id("p")];
    assert_eq!(shape(&parse_pro(b)), "box([p])");
    let c = vec![id("choice"), id("p"), id("q")];
    assert_eq!(shape(&parse_pro(c)), "choice([p],[q])");
    let p = vec![id("present"), id("p"), id("q")];
    assert_eq!(shape(&parse_pro(p)), "present([p],[q])");
}

#[test]
fn pro_closure_is_a_call() {
    let f = vec![tok(Tok::Or), id("v"), tok(Tok::Or), id("v")];
    assert_eq!(shape(&parse_pro(f)), "fn[| v | v]");
    let g = vec![tok(Tok::Or), id("v"), tok(Tok::Or), id("v")];
    assert_eq!(shape(&parse_pro_par(g)), "[| v | v]");
    let m = vec![id("move"), tok(Tok::Or), tok(Tok::Or), id("x")];
    assert_eq!(shape(&parse_pro(m)), "fn[move | | x]");
}

#[test]
fn pro_once_and_val() {
    let o = vec![id("once"), tok(Tok::Or), tok(Tok::Or), id("x"), tok(Tok::Semi), id("p")];
    assert_eq!(shape(&parse_pro(o)), "seq(once[| | x],[p])");
    let v = vec![id("val"), id("f")];
    assert_eq!(shape(&parse_pro(v)), "once[f]");
    let w = vec![id("val"), id("f")];
    assert_eq!(shape(&parse_pro_par(w)), "[val f]");
    let alone = vec![id("once")];
    assert_eq!(shape(&parse_pro(alone)), "[once]");
}

#[test]
fn pro_groups() {
    let inner = vec![id("a"), tok(Tok::OrOr), id("b")];
    let ts = vec![group(Delim::Paren, inner), tok(Tok::Semi), id("c")];
    assert_eq!(shape(&parse_pro(ts)), "seq(join([a],[b]),[c])");
    let bad = vec![group(Delim::Bracket, vec![id("a")])];
    assert_eq!(shape(&parse_pro(bad)), "error");
}

#[test]
fn pro_split_at_index() {
    let ts = vec![id("a"), tok(Tok::Semi), id("b"), tok(Tok::Semi), id("c")];
    let (p, q) = split_on_binop(ts, 1, false);
    assert_eq!(shape(&p), "[a]");
    assert_eq!(shape(&q), "seq([b],[c])");
}

#[test]
fn node_first_separator_splits() {
    let ts = vec![id("a"), tok(Tok::Shr), id("b"), tok(Tok::OrOr), id("c")];
    assert_eq!(node_shape(&parse_node(ts)), "nseq([a],njoin([b],[c]))");
}

#[test]
fn node_choice_and_groups() {
    let ts = vec![id("choice"), id("n"), group(Delim::Paren, vec![id("m"), tok(Tok::Shr), id("k")])];
    assert_eq!(node_shape(&parse_node(ts)), "alter([n],nseq([m],[k]))");
    let bad = vec![group(Delim::Bracket, vec![])];
    assert_eq!(node_shape(&parse_node(bad)), "error");
}

fn item(for_pos: usize, name_start: usize, name_end: usize, first_trait: usize, body: usize) -> MimplItem {
    MimplItem { for_pos, name_start, name_end, first_trait, body }
}

#[test]
fn mimpl_two_traits() {
    // impl<T> for S<T> trait A { } trait B { }
    let ts = vec![
        id("impl"),
        tok(Tok::Other("<T>".to_string())),
        id("for"),
        id("S"),
        id("trait"),
        id("A"),
        group(Delim::Brace, vec![]),
        id("trait"),
        id("B"),
        group(Delim::Brace, vec![]),
    ];
    let items = parse_mimpl(&ts).unwrap();
    assert_eq!(items, vec![item(2, 5, 6, 4, 6), item(2, 8, 9, 4, 9)]);
}

#[test]
fn mimpl_errors() {
    let short = vec![id("impl"), id("for"), id("S")];
    assert_eq!(parse_mimpl(&short), Err(MimplError::TooShort));
    let not_impl = vec![id("fn"), id("for"), id("S"), id("trait"), id("A"), group(Delim::Brace, vec![])];
    assert_eq!(parse_mimpl(&not_impl), Err(MimplError::NotImpl));
    let two_for = vec![id("impl"), id("for"), id("S"), id("for"), id("trait"), id("A"), group(Delim::Brace, vec![])];
    assert_eq!(parse_mimpl(&two_for), Err(MimplError::TwoFor));
    let no_trait = vec![id("impl"), id("for"), id("S"), id("A"), id("B"), group(Delim::Brace, vec![])];
    assert_eq!(parse_mimpl(&no_trait), Err(MimplError::NoTrait));
}

#[test]
fn mimpl_ranges_checked_before_reading() {
    let good = vec![id("impl"), id("for"), id("S"), id("trait"), id("A"), group(Delim::Brace, vec![])];
    assert!(mimpl_ranges_valid(&good));
    let for_after_trait = vec![id("impl"), id("S"), id("trait"), id("A"), id("for"), group(Delim::Brace, vec![])];
    assert!(!mimpl_ranges_valid(&for_after_trait));
    let no_name = vec![id("impl"), id("for"), id("S"), id("trait"), id("trait"), group(Delim::Brace, vec![])];
    assert!(!mimpl_ranges_valid(&no_name));
    let refused = vec![id("fn"), id("for")];
    assert!(mimpl_ranges_valid(&refused));
}
