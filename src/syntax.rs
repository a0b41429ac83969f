//! Condition language: parsing, alias/predicate resolution and rendering.
//!
//! Grammar: `expr := unary (('&' | '|') unary)*`, combined left to right;
//! `unary := '!' unary | '(' expr ')' | word`. A word holding `:` is a
//! `label:key` predicate reference, any other word an alias whose expansion
//! is parsed in turn. A condition holding `#` is a legacy `#[cfg(..)]` literal.
use vstd::prelude::*;
use crate::errors::{NSCFGError, ErrorView};
use crate::config::{Config, alias_of, predicate_spec, get_nscfg_predicate, get_nscfg_alias};
use crate::text::{outside_literal, lit_state, lit_step, is_ws, is_word, is_ws_char, is_word_char, trim, trim_spec, slice, char_string, find_char, first_index_of, occurs_at};

verus! {

/// How deep alias expansions may nest; deeper nesting (a cyclic override)
/// leaves the innermost alias unresolved.
pub const MAX_ALIAS_DEPTH: usize = 16;

/// Expression tree of one arm, with resolved predicates at the leaves.
#[derive(Debug)]
pub enum Node {
    Leaf(String),
    Not(Box<Node>),
    And(Box<Node>, Box<Node>),
    Or(Box<Node>, Box<Node>),
    LegacyLiteral(String),
}

/// Mathematical model of [`Node`].
pub enum Expr {
    Leaf(Seq<char>),
    Not(Box<Expr>),
    And(Box<Expr>, Box<Expr>),
    Or(Box<Expr>, Box<Expr>),
    LegacyLiteral(Seq<char>),
}

/// The model of a tree.
pub open spec fn expr_of(n: Node) -> Expr
    decreases n,
{
    match n {
        Node::Leaf(p) => Expr::Leaf(p@),
        Node::Not(c) => Expr::Not(Box::new(expr_of(*c))),
        Node::And(l, r) => Expr::And(Box::new(expr_of(*l)), Box::new(expr_of(*r))),
        Node::Or(l, r) => Expr::Or(Box::new(expr_of(*l)), Box::new(expr_of(*r))),
        Node::LegacyLiteral(x) => Expr::LegacyLiteral(x@),
    }
}

impl View for Node {
    type V = Expr;

    open spec fn view(&self) -> Expr {
        expr_of(*self)
    }
}

/// Operators and grouping of the simplified syntax.
pub open spec fn is_op(c: char) -> bool {
    c == '!' || c == '&' || c == '|' || c == '(' || c == ')'
}

/// The alphabet of the simplified syntax.
pub open spec fn is_cond(c: char) -> bool {
    is_ws(c) || is_word(c) || is_op(c)
}

/// End of the word that starts at `i`.
pub open spec fn word_end(s: Seq<char>, i: int) -> int
    decreases s.len() - i,
{
    if 0 <= i < s.len() && is_word(s[i]) {
        word_end(s, i + 1)
    } else {
        i
    }
}

/// A resolved term, or the error it fails with.
pub type Parsed = Result<(Expr, int), ErrorView>;

/// The tree of one word: a `label:key` reference resolves to a predicate
/// leaf; an alias to the tree of its expansion, parsed `d - 1` levels deep.
pub open spec fn word_spec(c: Config, w: Seq<char>, d: nat) -> Result<Expr, ErrorView>
    decreases d, 0int, 0int,
{
    if first_index_of(w, ':') is Some {
        match predicate_spec(c, w) {
            Ok(p) => Ok(Expr::Leaf(p)),
            Err(x) => Err(x),
        }
    } else {
        match alias_of(c, w) {
            Some(a) => if d == 0 {
                Err(ErrorView::AliasNotFound(w))
            } else {
                simple_spec(c, a, (d - 1) as nat)
            },
            None => Err(ErrorView::AliasNotFound(w)),
        }
    }
}

/// Parses `!`-prefixed terms from `i`: a word, or a parenthesised expression.
pub open spec fn unary_spec(c: Config, s: Seq<char>, i: int, d: nat) -> Parsed
    decreases d, s.len() - i, 1int,
{
    if i < 0 || i >= s.len() {
        Err(ErrorView::EmptyNode)
    } else if is_ws(s[i]) {
        unary_spec(c, s, i + 1, d)
    } else if s[i] == '!' {
        match unary_spec(c, s, i + 1, d) {
            Ok((e, k)) => Ok((Expr::Not(Box::new(e)), k)),
            Err(x) => Err(x),
        }
    } else if s[i] == '(' {
        match expr_spec(c, s, i + 1, d) {
            Ok((e, k)) => if k >= s.len() {
                Err(ErrorView::InvalidCharacter(seq!['(']))
            } else if s[k] == ')' {
                Ok((e, k + 1))
            } else {
                Err(ErrorView::MissingOperator)
            },
            Err(x) => Err(x),
        }
    } else if is_word(s[i]) {
        let k = word_end(s, i);
        match word_spec(c, s.subrange(i, k), d) {
            Ok(e) => Ok((e, k)),
            Err(x) => Err(x),
        }
    } else {
        Err(ErrorView::EmptyNode)
    }
}

/// Parses an expression from `i`; it stops before the first character that
/// continues no expression. A parsed term always ends past its start, so the
/// `EmptyNode` fallback after a term is never taken: it only keeps the
/// measure of the recursion visible.
pub open spec fn expr_spec(c: Config, s: Seq<char>, i: int, d: nat) -> Parsed
    decreases d, s.len() - i, 2int,
{
    match unary_spec(c, s, i, d) {
        Ok((e, k)) => if i < k <= s.len() {
            rest_spec(c, s, k, d, e)
        } else {
            Err(ErrorView::EmptyNode)
        },
        Err(x) => Err(x),
    }
}

/// Folds the operators that follow `acc`, from `k`, left to right.
pub open spec fn rest_spec(c: Config, s: Seq<char>, k: int, d: nat, acc: Expr) -> Parsed
    decreases d, s.len() - k, 3int,
{
    if k < 0 || k >= s.len() {
        Ok((acc, k))
    } else if is_ws(s[k]) {
        rest_spec(c, s, k + 1, d, acc)
    } else if s[k] == '&' || s[k] == '|' {
        match unary_spec(c, s, k + 1, d) {
            Ok((e, m)) => if k < m <= s.len() {
                let combined = if s[k] == '&' {
                    Expr::And(Box::new(acc), Box::new(e))
                } else {
                    Expr::Or(Box::new(acc), Box::new(e))
                };
                rest_spec(c, s, m, d, combined)
            } else {
                Err(ErrorView::EmptyNode)
            },
            Err(x) => Err(x),
        }
    } else {
        Ok((acc, k))
    }
}

/// Index of the first character of `s` outside the simplified alphabet.
pub open spec fn first_invalid(s: Seq<char>) -> Option<int> {
    if exists|k: int| 0 <= k < s.len() && !is_cond(s[k]) {
        Some(choose|k: int| 0 <= k < s.len() && !is_cond(s[k]) && forall|m: int| 0 <= m < k ==> is_cond(s[m]))
    } else {
        None
    }
}

/// A whole condition in simplified syntax, aliases expanded `d` levels deep.
pub open spec fn simple_spec(c: Config, s: Seq<char>, d: nat) -> Result<Expr, ErrorView>
    decreases d, s.len() + 1, 0int,
{
    match first_invalid(s) {
        Some(k) => Err(ErrorView::InvalidCharacter(seq![s[k]])),
        None => match expr_spec(c, s, 0, d) {
            Ok((e, k)) => if k >= s.len() {
                Ok(e)
            } else if s[k] == ')' {
                Err(ErrorView::InvalidCharacter(seq![')']))
            } else {
                Err(ErrorView::MissingOperator)
            },
            Err(x) => Err(x),
        },
    }
}

/// Whether `s` holds the legacy-syntax marker `#`.
pub open spec fn has_legacy_mark(s: Seq<char>) -> bool {
    exists|k: int| 0 <= k < s.len() && s[k] == '#'
}

/// Whether `s` holds an operator of the simplified syntax (`&`, `|`, `!`)
/// outside string literals.
pub open spec fn has_simplified_op(s: Seq<char>) -> bool {
    exists|k: int| 0 <= k < s.len() && #[trigger] op_at(s, k)
}

/// Whether an operator of the simplified syntax stands at `k`, outside
/// string literals.
pub open spec fn op_at(s: Seq<char>, k: int) -> bool {
    outside_literal(s, k) && (s[k] == '&' || s[k] == '|' || s[k] == '!')
}

/// Whether `t` is exactly `#[cfg(` inner `)]` with a non-empty inner part.
pub open spec fn is_legacy_form(t: Seq<char>) -> bool {
    t.len() > 8 && occurs_at(t, "#[cfg("@, 0) && occurs_at(t, ")]"@, t.len() - 2)
}

/// The tree of a whole condition, in either syntax.
pub open spec fn condition_spec(c: Config, s: Seq<char>) -> Result<Expr, ErrorView> {
    let t = trim_spec(s);
    if t.len() == 0 {
        Err(ErrorView::EmptyNode)
    } else if has_legacy_mark(s) {
        if has_simplified_op(s) {
            Err(ErrorView::MixedSyntaxError)
        } else if is_legacy_form(t) {
            Ok(Expr::LegacyLiteral(t.subrange(6, t.len() - 2)))
        } else {
            Err(ErrorView::LegacySyntaxError)
        }
    } else {
        simple_spec(c, t, MAX_ALIAS_DEPTH as nat)
    }
}

/// Whether an exec parse result is the spec one.
pub open spec fn same_parsed(r: Result<(Node, usize), NSCFGError>, p: Parsed) -> bool {
    match (r, p) {
        (Ok((n, k)), Ok((e, j))) => n@ == e && k == j,
        (Err(x), Err(y)) => x@ == y,
        _ => false,
    }
}

/// Whether an exec result is the spec one.
pub open spec fn same_tree(r: Result<Node, NSCFGError>, p: Result<Expr, ErrorView>) -> bool {
    match (r, p) {
        (Ok(n), Ok(e)) => n@ == e,
        (Err(x), Err(y)) => x@ == y,
        _ => false,
    }
}

fn scan_word(s: &str, i: usize) -> (k: usize)
    requires
        i <= s@.len(),
    ensures
        k == word_end(s@, i as int),
        i <= k <= s@.len(),
        i < s@.len() && is_word(s@[i as int]) ==> i < k,
{
    let n = s.unicode_len();
    let mut k = i;
    while k < n && is_word_char(s.get_char(k))
        invariant
            n == s@.len(),
            i <= k <= n,
            word_end(s@, i as int) == word_end(s@, k as int),
        decreases n - k,
    {
        k = k + 1;
    }
    k
}

fn parse_word(config: &Config, w: &str, depth: usize) -> (r: Result<Node, NSCFGError>)
    ensures
        same_tree(r, word_spec(*config, w@, depth as nat)),
    decreases depth, 0int, 0int,
{
    if find_char(w, ':').is_some() {
        match get_nscfg_predicate(config, w) {
            Ok(p) => Ok(Node::Leaf(p)),
            Err(x) => Err(x),
        }
    } else {
        match get_nscfg_alias(config, w) {
            Ok(a) => if depth == 0 {
                Err(NSCFGError::AliasNotFound(String::from_str(w)))
            } else {
                parse_simple(config, a.as_str(), depth - 1)
            },
            Err(x) => Err(x),
        }
    }
}

fn parse_unary(config: &Config, s: &str, i: usize, depth: usize) -> (r: Result<(Node, usize), NSCFGError>)
    requires
        i <= s@.len(),
    ensures
        same_parsed(r, unary_spec(*config, s@, i as int, depth as nat)),
        r matches Ok((_, k)) ==> i < k <= s@.len(),
    decreases depth, s@.len() - i, 1int,
{
    let n = s.unicode_len();
    if i >= n {
        return Err(NSCFGError::EmptyNode);
    }
    let ch = s.get_char(i);
    if is_ws_char(ch) {
        parse_unary(config, s, i + 1, depth)
    } else if ch == '!' {
        match parse_unary(config, s, i + 1, depth) {
            Ok((e, k)) => Ok((Node::Not(Box::new(e)), k)),
            Err(x) => Err(x),
        }
    } else if ch == '(' {
        match parse_expr(config, s, i + 1, depth) {
            Ok((e, k)) => if k >= n {
                Err(NSCFGError::InvalidCharacter(char_string('(')))
            } else if s.get_char(k) == ')' {
                Ok((e, k + 1))
            } else {
                Err(NSCFGError::MissingOperator)
            },
            Err(x) => Err(x),
        }
    } else if is_word_char(ch) {
        let k = scan_word(s, i);
        let w = slice(s, i, k);
        match parse_word(config, w.as_str(), depth) {
            Ok(e) => Ok((e, k)),
            Err(x) => Err(x),
        }
    } else {
        Err(NSCFGError::EmptyNode)
    }
}

fn parse_expr(config: &Config, s: &str, i: usize, depth: usize) -> (r: Result<(Node, usize), NSCFGError>)
    requires
        i <= s@.len(),
    ensures
        same_parsed(r, expr_spec(*config, s@, i as int, depth as nat)),
        r matches Ok((_, k)) ==> i < k <= s@.len(),
    decreases depth, s@.len() - i, 2int,
{
    match parse_unary(config, s, i, depth) {
        Ok((e, k)) => parse_rest(config, s, k, depth, e),
        Err(x) => Err(x),
    }
}

fn parse_rest(config: &Config, s: &str, k: usize, depth: usize, acc: Node) -> (r: Result<(Node, usize), NSCFGError>)
    requires
        k <= s@.len(),
    ensures
        same_parsed(r, rest_spec(*config, s@, k as int, depth as nat, acc@)),
        r matches Ok((_, m)) ==> k <= m <= s@.len(),
    decreases depth, s@.len() - k, 3int,
{
    let n = s.unicode_len();
    if k >= n {
        return Ok((acc, k));
    }
    let ch = s.get_char(k);
    if is_ws_char(ch) {
        parse_rest(config, s, k + 1, depth, acc)
    } else if ch == '&' || ch == '|' {
        match parse_unary(config, s, k + 1, depth) {
            Ok((e, m)) => {
                let combined = if ch == '&' {
                    Node::And(Box::new(acc), Box::new(e))
                } else {
                    Node::Or(Box::new(acc), Box::new(e))
                };
                parse_rest(config, s, m, depth, combined)
            },
            Err(x) => Err(x),
        }
    } else {
        Ok((acc, k))
    }
}

fn find_invalid(s: &str) -> (r: Option<usize>)
    ensures
        match r {
            Some(k) => first_invalid(s@) == Some(k as int) && k < s@.len(),
            None => first_invalid(s@) is None,
        },
{
    let n = s.unicode_len();
    let mut i: usize = 0;
    while i < n
        invariant
            n == s@.len(),
            i <= n,
            forall|m: int| 0 <= m < i ==> is_cond(s@[m]),
        decreases n - i,
    {
        let ch = s.get_char(i);
        if !(is_ws_char(ch) || is_word_char(ch) || ch == '!' || ch == '&' || ch == '|' || ch == '('
            || ch == ')') {
            proof {
                let k = first_invalid(s@)->Some_0;
                assert(k == i) by {
                    if k < i {
                    } else if k > i {
                    }
                }
            }
            return Some(i);
        }
        i = i + 1;
    }
    None
}

/// Parses a whole condition in simplified syntax, expanding aliases at most
/// `depth` levels deep.
pub fn parse_simple(config: &Config, s: &str, depth: usize) -> (r: Result<Node, NSCFGError>)
    ensures
        same_tree(r, simple_spec(*config, s@, depth as nat)),
    decreases depth, s@.len() + 1, 0int,
{
    match find_invalid(s) {
        Some(k) => Err(NSCFGError::InvalidCharacter(char_string(s.get_char(k)))),
        None => match parse_expr(config, s, 0, depth) {
            Ok((e, k)) => if k >= s.unicode_len() {
                Ok(e)
            } else if s.get_char(k) == ')' {
                Err(NSCFGError::InvalidCharacter(char_string(')')))
            } else {
                Err(NSCFGError::MissingOperator)
            },
            Err(x) => Err(x),
        },
    }
}

fn scan_marks(s: &str) -> (r: (bool, bool))
    ensures
        r.0 == has_legacy_mark(s@),
        r.1 == has_simplified_op(s@),
{
    let n = s.unicode_len();
    let mut legacy = false;
    let mut ops = false;
    let mut open = false;
    let mut esc = false;
    let mut i: usize = 0;
    while i < n
        invariant
            n == s@.len(),
            i <= n,
            (open, esc) == lit_state(s@, i as int),
            legacy == exists|k: int| 0 <= k < i && s@[k] == '#',
            ops == exists|k: int| 0 <= k < i && #[trigger] op_at(s@, k),
        decreases n - i,
    {
        let ch = s.get_char(i);
        if ch == '#' {
            legacy = true;
        }
        if !open && ch != '"' && (ch == '&' || ch == '|' || ch == '!') {
            ops = true;
            assert(op_at(s@, i as int));
        }
        let (o2, e2) = lit_step(open, esc, ch);
        open = o2;
        esc = e2;
        i = i + 1;
        assert(legacy == exists|k: int| 0 <= k < i && s@[k] == '#') by {
            if ch == '#' {
                assert(s@[i - 1] == '#');
            }
        }
    }
    (legacy, ops)
}

/// Whether `s` starts with `p`.
fn starts_with_at(s: &str, p: &str, at: usize) -> (r: bool)
    requires
        at + p@.len() <= s@.len(),
    ensures
        r == occurs_at(s@, p@, at as int),
{
    let n = s.unicode_len();
    let m = p.unicode_len();
    let mut j: usize = 0;
    while j < m
        invariant
            n == s@.len(),
            m == p@.len(),
            at + m <= s@.len(),
            j <= m,
            forall|t: int| 0 <= t < j ==> s@[at + t] == p@[t],
        decreases m - j,
    {
        if s.get_char(at + j) != p.get_char(j) {
            assert(s@.subrange(at as int, at + m)[j as int] == s@[at + j]);
            return false;
        }
        j = j + 1;
    }
    assert(s@.subrange(at as int, at + m) =~= p@);
    true
}

/// Parses the condition of an arm into its tree: a legacy `#[cfg(..)]`
/// literal, or a simplified expression with aliases and predicates resolved.
pub fn parse_condition(config: &Config, text: &str) -> (r: Result<Node, NSCFGError>)
    ensures
        same_tree(r, condition_spec(*config, text@)),
{
    let t = trim(text);
    let n = t.unicode_len();
    if n == 0 {
        return Err(NSCFGError::EmptyNode);
    }
    let (legacy, ops) = scan_marks(text);
    if legacy {
        if ops {
            Err(NSCFGError::MixedSyntaxError)
        } else {
            proof {
                reveal_strlit("#[cfg(");
                reveal_strlit(")]");
            }
            if n > 8 && starts_with_at(t.as_str(), "#[cfg(", 0) && starts_with_at(
                t.as_str(),
                ")]",
                n - 2,
            ) {
                Ok(Node::LegacyLiteral(slice(t.as_str(), 6, n - 2)))
            } else {
                Err(NSCFGError::LegacySyntaxError)
            }
        }
    } else {
        parse_simple(config, t.as_str(), MAX_ALIAS_DEPTH)
    }
}

/// The native predicate text of a tree.
pub open spec fn render(e: Expr) -> Seq<char>
    decreases e,
{
    match e {
        Expr::Leaf(p) => p,
        Expr::Not(x) => "not("@ + render(*x) + ")"@,
        Expr::And(l, r) => "all("@ + render(*l) + ", "@ + render(*r) + ")"@,
        Expr::Or(l, r) => "any("@ + render(*l) + ", "@ + render(*r) + ")"@,
        Expr::LegacyLiteral(x) => x,
    }
}

/// Characters that may continue an identifier.
pub open spec fn is_ident(c: char) -> bool {
    ('a' <= c && c <= 'z') || ('A' <= c && c <= 'Z') || ('0' <= c && c <= '9') || c == '_'
}

fn is_ident_char(c: char) -> (r: bool)
    ensures
        r == is_ident(c),
{
    ('a' <= c && c <= 'z') || ('A' <= c && c <= 'Z') || ('0' <= c && c <= '9') || c == '_'
}

/// Whether the whole identifier `doc` stands at `k` in `t`.
pub open spec fn doc_at(t: Seq<char>, k: int) -> bool {
    &&& 0 <= k
    &&& k + 3 <= t.len()
    &&& t[k] == 'd' && t[k + 1] == 'o' && t[k + 2] == 'c'
    &&& (k == 0 || !is_ident(t[k - 1]))
    &&& (k + 3 == t.len() || !is_ident(t[k + 3]))
}

/// Whether a condition's text names `doc` literally, in either syntax; an
/// alias that expands to `doc` does not count.
pub open spec fn names_doc(t: Seq<char>) -> bool {
    exists|k: int| #[trigger] doc_at(t, k)
}

/// Whether a condition's text names `doc` literally.
pub fn names_doc_text(t: &str) -> (r: bool)
    ensures
        r == names_doc(t@),
{
    let n = t.unicode_len();
    if n < 3 {
        assert(forall|k: int| !#[trigger] doc_at(t@, k));
        return false;
    }
    let mut k: usize = 0;
    while k <= n - 3
        invariant
            n == t@.len(),
            n >= 3,
            forall|m: int| 0 <= m < k ==> !#[trigger] doc_at(t@, m),
        decreases n - k,
    {
        if t.get_char(k) == 'd' && t.get_char(k + 1) == 'o' && t.get_char(k + 2) == 'c' && (k == 0
            || !is_ident_char(t.get_char(k - 1))) && (k + 3 == n || !is_ident_char(
            t.get_char(k + 3),
        )) {
            assert(doc_at(t@, k as int));
            return true;
        }
        k = k + 1;
    }
    assert forall|m: int| !#[trigger] doc_at(t@, m) by {
        if 0 <= m && m < k {
        }
    }
    false
}

impl Node {
    /// Renders the tree as native predicate text (`all`, `any`, `not`).
    pub fn render(&self) -> (r: String)
        ensures
            r@ == render(self@),
        decreases self,
    {
        match self {
            Node::Leaf(p) => p.clone(),
            Node::Not(x) => String::from_str("not(").concat(x.render().as_str()).concat(")"),
            Node::And(l, r) => String::from_str("all(").concat(l.render().as_str()).concat(
                ", ",
            ).concat(r.render().as_str()).concat(")"),
            Node::Or(l, r) => String::from_str("any(").concat(l.render().as_str()).concat(
                ", ",
            ).concat(r.render().as_str()).concat(")"),
            Node::LegacyLiteral(x) => x.clone(),
        }
    }

    /// A copy of the tree.
    pub fn copy(&self) -> (r: Node)
        ensures
            r@ == self@,
        decreases self,
    {
        match self {
            Node::Leaf(p) => Node::Leaf(p.clone()),
            Node::Not(x) => Node::Not(Box::new(x.copy())),
            Node::And(l, r) => Node::And(Box::new(l.copy()), Box::new(r.copy())),
            Node::Or(l, r) => Node::Or(Box::new(l.copy()), Box::new(r.copy())),
            Node::LegacyLiteral(x) => Node::LegacyLiteral(x.clone()),
        }
    }
}

} // verus!
