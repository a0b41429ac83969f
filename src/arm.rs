//! Token model of an invocation, and its split into arms.
//!
//! An invocation is a flat token sequence in which groups are marked by
//! `Open` and `Close` tokens. Arms are separated by top-level `,` and read
//! `modifier? condition => content`; content is a braced group, or the
//! tokens up to the next top-level `,`.
use vstd::prelude::*;
use crate::errors::{NSCFGError, ErrorView};
use crate::text::{outside_literal, lit_state, lit_step, is_word, is_word_char, trim, trim_spec, char_string, str_eq, slice};

verus! {

/// Group delimiters.
#[derive(Clone, Copy, Debug, PartialEq, Eq, Structural)]
pub enum Delimiter {
    Parenthesis,
    Bracket,
    Brace,
    /// A group with no visible delimiter.
    Invisible,
}

/// One token of an invocation. `Punct` carries whether the next token
/// joins it (as `=` does in `=>`).
#[derive(Debug)]
pub enum Tok {
    Ident(String),
    Punct(char, bool),
    Literal(String),
    Open(Delimiter),
    Close(Delimiter),
}

impl Tok {
    /// A copy of the token.
    pub fn copy(&self) -> (r: Tok)
        ensures
            r == *self,
    {
        match self {
            Tok::Ident(s) => Tok::Ident(s.clone()),
            Tok::Punct(c, j) => Tok::Punct(*c, *j),
            Tok::Literal(s) => Tok::Literal(s.clone()),
            Tok::Open(d) => Tok::Open(*d),
            Tok::Close(d) => Tok::Close(*d),
        }
    }
}

/// Modifier that may lead an arm.
#[derive(Clone, Copy, Debug, PartialEq, Eq, Structural)]
pub enum Modifier {
    /// No modifier.
    Absent,
    /// `+`: the arm is forced on.
    Activate,
    /// `-`: the arm is forced off.
    Deactivate,
    /// `*`: the expansion fails outside a debug build.
    PanicOnRelease,
}

/// The text of a token.
pub open spec fn tok_text(t: Tok) -> Seq<char> {
    match t {
        Tok::Ident(s) => s@,
        Tok::Punct(c, _) => seq![c],
        Tok::Literal(s) => s@,
        Tok::Open(d) => match d {
            Delimiter::Parenthesis => seq!['('],
            Delimiter::Bracket => seq!['['],
            Delimiter::Brace => seq!['{'],
            Delimiter::Invisible => Seq::empty(),
        },
        Tok::Close(d) => match d {
            Delimiter::Parenthesis => seq![')'],
            Delimiter::Bracket => seq![']'],
            Delimiter::Brace => seq!['}'],
            Delimiter::Invisible => Seq::empty(),
        },
    }
}

/// Identifiers and literals: two of them in a row are kept apart by a space.
pub open spec fn is_wordish(t: Tok) -> bool {
    t is Ident || t is Literal
}

/// The text of a token sequence: token texts joined, with one space between
/// two consecutive identifiers or literals and none elsewhere.
pub open spec fn render_toks(ts: Seq<Tok>) -> Seq<char>
    decreases ts.len(),
{
    if ts.len() == 0 {
        Seq::empty()
    } else {
        tok_text(ts[0]) + (if ts.len() > 1 && is_wordish(ts[0]) && is_wordish(ts[1]) {
            seq![' ']
        } else {
            Seq::empty()
        }) + render_toks(ts.drop_first())
    }
}

fn tok_text_exec(t: &Tok) -> (r: String)
    ensures
        r@ == tok_text(*t),
{
    match t {
        Tok::Ident(s) => s.clone(),
        Tok::Punct(c, _) => char_string(*c),
        Tok::Literal(s) => s.clone(),
        Tok::Open(d) => match d {
            Delimiter::Parenthesis => char_string('('),
            Delimiter::Bracket => char_string('['),
            Delimiter::Brace => char_string('{'),
            Delimiter::Invisible => String::new(),
        },
        Tok::Close(d) => match d {
            Delimiter::Parenthesis => char_string(')'),
            Delimiter::Bracket => char_string(']'),
            Delimiter::Brace => char_string('}'),
            Delimiter::Invisible => String::new(),
        },
    }
}

fn is_wordish_exec(t: &Tok) -> (r: bool)
    ensures
        r == is_wordish(*t),
{
    match t {
        Tok::Ident(_) => true,
        Tok::Literal(_) => true,
        _ => false,
    }
}

/// Renders the tokens `from..to` as text.
pub fn render_tokens(ts: &Vec<Tok>, from: usize, to: usize) -> (r: String)
    requires
        from <= to <= ts@.len(),
    ensures
        r@ == render_toks(ts@.subrange(from as int, to as int)),
{
    let mut r = String::new();
    let mut i = from;
    while i < to
        invariant
            from <= i <= to <= ts@.len(),
            r@ + render_toks(ts@.subrange(i as int, to as int)) == render_toks(
                ts@.subrange(from as int, to as int),
            ),
        decreases to - i,
    {
        let ghost rest = ts@.subrange(i as int, to as int);
        assert(rest.drop_first() =~= ts@.subrange(i + 1, to as int));
        let piece = tok_text_exec(&ts[i]);
        r = r.concat(piece.as_str());
        if i + 1 < to && is_wordish_exec(&ts[i]) && is_wordish_exec(&ts[i + 1]) {
            r = r.concat(" ");
            proof {
                reveal_strlit(" ");
            }
        }
        assert(r@ + render_toks(ts@.subrange(i + 1, to as int)) =~= render_toks(
            ts@.subrange(from as int, to as int),
        ));
        i = i + 1;
    }
    assert(r@ + render_toks(ts@.subrange(to as int, to as int)) =~= r@);
    r
}

/// Group depth after one more token; a stray closing token leaves it at 0.
pub open spec fn step(d: nat, t: Tok) -> nat {
    match t {
        Tok::Open(_) => d + 1,
        Tok::Close(_) => if d > 0 {
            (d - 1) as nat
        } else {
            0
        },
        _ => d,
    }
}

fn step_exec(d: usize, t: &Tok) -> (r: usize)
    requires
        d < usize::MAX,
    ensures
        r == step(d as nat, *t),
{
    match t {
        Tok::Open(_) => d + 1,
        Tok::Close(_) => if d > 0 {
            d - 1
        } else {
            0
        },
        _ => d,
    }
}

pub open spec fn is_punct(t: Tok, c: char) -> bool {
    t matches Tok::Punct(x, _) && x == c
}

fn is_punct_exec(t: &Tok, c: char) -> (r: bool)
    ensures
        r == is_punct(*t, c),
{
    match t {
        Tok::Punct(x, _) => *x == c,
        _ => false,
    }
}

/// First top-level `,` or `=` at or after `j`, `d` being the depth at `j`.
pub open spec fn scan_cond(ts: Seq<Tok>, j: int, d: nat) -> int
    decreases ts.len() - j,
{
    if j < 0 || j >= ts.len() {
        ts.len() as int
    } else if d == 0 && (is_punct(ts[j], ',') || is_punct(ts[j], '=')) {
        j
    } else {
        scan_cond(ts, j + 1, step(d, ts[j]))
    }
}

/// First top-level `,` at or after `j`, `d` being the depth at `j`.
pub open spec fn scan_comma(ts: Seq<Tok>, j: int, d: nat) -> int
    decreases ts.len() - j,
{
    if j < 0 || j >= ts.len() {
        ts.len() as int
    } else if d == 0 && is_punct(ts[j], ',') {
        j
    } else {
        scan_comma(ts, j + 1, step(d, ts[j]))
    }
}

/// The closing token of the group open at `j` at depth `d`, or the end.
pub open spec fn scan_close(ts: Seq<Tok>, j: int, d: nat) -> int
    decreases ts.len() - j,
{
    if j < 0 || j >= ts.len() {
        ts.len() as int
    } else if d <= 1 && ts[j] is Close {
        j
    } else {
        scan_close(ts, j + 1, step(d, ts[j]))
    }
}

fn find_cond_end(ts: &Vec<Tok>, from: usize) -> (r: usize)
    requires
        from <= ts@.len(),
    ensures
        r == scan_cond(ts@, from as int, 0),
        from <= r <= ts@.len(),
{
    let mut j = from;
    let mut d: usize = 0;
    while j < ts.len()
        invariant
            from <= j <= ts@.len(),
            d <= j,
            scan_cond(ts@, from as int, 0) == scan_cond(ts@, j as int, d as nat),
        decreases ts@.len() - j,
    {
        if d == 0 && (is_punct_exec(&ts[j], ',') || is_punct_exec(&ts[j], '=')) {
            return j;
        }
        d = step_exec(d, &ts[j]);
        j = j + 1;
    }
    j
}

fn find_comma(ts: &Vec<Tok>, from: usize) -> (r: usize)
    requires
        from <= ts@.len(),
    ensures
        r == scan_comma(ts@, from as int, 0),
        from <= r <= ts@.len(),
{
    let mut j = from;
    let mut d: usize = 0;
    while j < ts.len()
        invariant
            from <= j <= ts@.len(),
            d <= j,
            scan_comma(ts@, from as int, 0) == scan_comma(ts@, j as int, d as nat),
        decreases ts@.len() - j,
    {
        if d == 0 && is_punct_exec(&ts[j], ',') {
            return j;
        }
        d = step_exec(d, &ts[j]);
        j = j + 1;
    }
    j
}

fn find_close(ts: &Vec<Tok>, from: usize) -> (r: usize)
    requires
        1 <= from <= ts@.len(),
    ensures
        r == scan_close(ts@, from as int, 1),
        from <= r <= ts@.len(),
{
    let mut j = from;
    let mut d: usize = 1;
    while j < ts.len()
        invariant
            from <= j <= ts@.len(),
            d <= j,
            scan_close(ts@, from as int, 1) == scan_close(ts@, j as int, d as nat),
        decreases ts@.len() - j,
    {
        let is_close = match &ts[j] {
            Tok::Close(_) => true,
            _ => false,
        };
        if d <= 1 && is_close {
            return j;
        }
        d = step_exec(d, &ts[j]);
        j = j + 1;
    }
    j
}

/// The modifier a glyph stands for.
pub open spec fn glyph(c: char) -> Modifier {
    if c == '+' {
        Modifier::Activate
    } else if c == '-' {
        Modifier::Deactivate
    } else if c == '*' {
        Modifier::PanicOnRelease
    } else {
        Modifier::Absent
    }
}

/// Whether `rest` holds a modifier glyph outside string literals: `+` or
/// `*`, or a `-` that does not continue a word.
pub open spec fn misplaced_modifier(rest: Seq<char>) -> bool {
    exists|k: int| 0 <= k < rest.len() && #[trigger] misplaced_at(rest, k)
}

/// Whether a modifier glyph stands at `k`, outside string literals.
pub open spec fn misplaced_at(rest: Seq<char>, k: int) -> bool {
    outside_literal(rest, k) && glyph_at(rest, k)
}

/// Whether a modifier glyph stands at `k`.
pub open spec fn glyph_at(rest: Seq<char>, k: int) -> bool {
    rest[k] == '+' || rest[k] == '*' || (rest[k] == '-' && (k == 0 || !is_word(rest[k - 1])))
}

/// The leading modifier of a condition, and the condition without it.
pub open spec fn modifier_spec(text: Seq<char>) -> Result<(Modifier, Seq<char>), ErrorView> {
    let u = trim_spec(text);
    let m = if u.len() > 0 {
        glyph(u[0])
    } else {
        Modifier::Absent
    };
    let rest = if m != Modifier::Absent {
        u.drop_first()
    } else {
        u
    };
    if misplaced_modifier(rest) {
        Err(ErrorView::ModifierNotFirst)
    } else {
        Ok((m, rest))
    }
}

/// Reads the leading modifier of a condition.
pub fn read_modifier(text: &str) -> (r: Result<(Modifier, String), NSCFGError>)
    ensures
        match (r, modifier_spec(text@)) {
            (Ok((m, s)), Ok((n, t))) => m == n && s@ == t,
            (Err(x), Err(y)) => x@ == y,
            _ => false,
        },
{
    let u = trim(text);
    let n = u.unicode_len();
    let mut m = Modifier::Absent;
    if n > 0 {
        let c = u.get_char(0);
        m = if c == '+' {
            Modifier::Activate
        } else if c == '-' {
            Modifier::Deactivate
        } else if c == '*' {
            Modifier::PanicOnRelease
        } else {
            Modifier::Absent
        };
    }
    let rest = if m != Modifier::Absent {
        slice(u.as_str(), 1, n)
    } else {
        u
    };
    let ghost g = rest@;
    assert(m != Modifier::Absent ==> g =~= trim_spec(text@).drop_first());
    assert(m == (if trim_spec(text@).len() > 0 { glyph(trim_spec(text@)[0]) } else { Modifier::Absent }));
    assert(g == (if m != Modifier::Absent { trim_spec(text@).drop_first() } else { trim_spec(text@) }));
    let k = rest.unicode_len();
    let mut i: usize = 0;
    let mut prev_word = false;
    let mut open = false;
    let mut esc = false;
    while i < k
        invariant
            k == rest@.len(),
            i <= k,
            (open, esc) == lit_state(rest@, i as int),
            prev_word == (i > 0 && is_word(rest@[i - 1])),
            modifier_spec(text@) == (if misplaced_modifier(rest@) {
                Err(ErrorView::ModifierNotFirst)
            } else {
                Ok((m, rest@))
            }),
            forall|t: int| 0 <= t < i ==> !#[trigger] misplaced_at(rest@, t),
        decreases k - i,
    {
        let c = rest.get_char(i);
        if !open && c != '"' && (c == '+' || c == '*' || (c == '-' && !prev_word)) {
            assert(misplaced_at(rest@, i as int));
            assert(misplaced_modifier(rest@));
            return Err(NSCFGError::ModifierNotFirst);
        }
        prev_word = is_word_char(c);
        let (o2, e2) = lit_step(open, esc, c);
        open = o2;
        esc = e2;
        i = i + 1;
    }
    Ok((m, rest))
}

/// Mathematical model of an [`Arm`].
pub struct ArmView {
    pub modifier: Modifier,
    pub condition: Seq<char>,
    pub content: Seq<Tok>,
    pub braced: bool,
    pub is_wildcard: bool,
}

/// One arm as written: its modifier, its condition without the modifier,
/// and its content.
pub struct Arm {
    pub modifier: Modifier,
    pub condition: String,
    pub content: Vec<Tok>,
    /// Whether the content was a braced group (whose braces are not kept).
    pub braced: bool,
    /// Whether the condition is the wildcard `_`.
    pub is_wildcard: bool,
}

impl View for Arm {
    type V = ArmView;

    open spec fn view(&self) -> ArmView {
        ArmView {
            modifier: self.modifier,
            condition: self.condition@,
            content: self.content@,
            braced: self.braced,
            is_wildcard: self.is_wildcard,
        }
    }
}

/// The models of a sequence of arms.
pub open spec fn views(v: Seq<Arm>) -> Seq<ArmView> {
    v.map_values(|a: Arm| a@)
}

/// Whether the tokens at `j` are the content separator `=>`.
pub open spec fn is_arrow(ts: Seq<Tok>, j: int) -> bool {
    0 <= j && j + 1 < ts.len() && ts[j] == Tok::Punct('=', true) && is_punct(ts[j + 1], '>')
}

/// The arm that starts at `from`, and where the next one starts.
pub open spec fn one_arm(ts: Seq<Tok>, from: int) -> Result<(ArmView, int), ErrorView> {
    let j = scan_cond(ts, from, 0);
    if j >= ts.len() || is_punct(ts[j], ',') {
        Err(ErrorView::ContentSeparatorMissing)
    } else if !is_arrow(ts, j) {
        Err(ErrorView::ContentSeparatorError)
    } else {
        match modifier_spec(render_toks(ts.subrange(from, j))) {
            Err(x) => Err(x),
            Ok((m, rest)) => if trim_spec(rest).len() == 0 {
                Err(ErrorView::EmptyArm)
            } else {
                let c = j + 2;
                let braced = c < ts.len() && ts[c] == Tok::Open(Delimiter::Brace);
                let e = if braced {
                    scan_close(ts, c + 1, 1)
                } else {
                    scan_comma(ts, c, 0)
                };
                let content = if braced {
                    ts.subrange(c + 1, e)
                } else {
                    ts.subrange(c, e)
                };
                let next = if braced && e < ts.len() {
                    e + 1
                } else {
                    e
                };
                if next < ts.len() && !is_punct(ts[next], ',') {
                    Err(ErrorView::ArmSeparatorMissing)
                } else {
                    let arm = ArmView {
                        modifier: m,
                        condition: rest,
                        content,
                        braced,
                        is_wildcard: trim_spec(rest) == seq!['_'],
                    };
                    Ok((arm, if next < ts.len() { next + 1 } else { next }))
                }
            },
        }
    }
}

/// The arms from `from` on, in order. Each arm ends past its start, so the
/// `EmptyArm` fallback after one is never taken.
pub open spec fn arms_spec(ts: Seq<Tok>, from: int) -> Result<Seq<ArmView>, ErrorView>
    decreases ts.len() - from,
{
    if from < 0 || from >= ts.len() {
        Ok(Seq::empty())
    } else {
        match one_arm(ts, from) {
            Ok((a, next)) => if next <= from || next > ts.len() {
                Err(ErrorView::EmptyArm)
            } else {
                match arms_spec(ts, next) {
                    Ok(rest) => Ok(seq![a] + rest),
                    Err(x) => Err(x),
                }
            },
            Err(x) => Err(x),
        }
    }
}

/// Copies of the tokens `from..to`.
pub fn copy_range(ts: &Vec<Tok>, from: usize, to: usize) -> (r: Vec<Tok>)
    requires
        from <= to <= ts@.len(),
    ensures
        r@ == ts@.subrange(from as int, to as int),
{
    let mut r: Vec<Tok> = Vec::new();
    let mut i = from;
    while i < to
        invariant
            from <= i <= to <= ts@.len(),
            r@ == ts@.subrange(from as int, i as int),
        decreases to - i,
    {
        r.push(ts[i].copy());
        assert(r@ =~= ts@.subrange(from as int, i + 1));
        i = i + 1;
    }
    r
}

fn read_arm(ts: &Vec<Tok>, from: usize) -> (r: Result<(Arm, usize), NSCFGError>)
    requires
        from < ts@.len(),
    ensures
        match (r, one_arm(ts@, from as int)) {
            (Ok((a, k)), Ok((b, m))) => a@ == b && k == m && from < k <= ts@.len(),
            (Err(x), Err(y)) => x@ == y,
            _ => false,
        },
{
    let n = ts.len();
    let j = find_cond_end(ts, from);
    if j >= n || is_punct_exec(&ts[j], ',') {
        return Err(NSCFGError::ContentSeparatorMissing);
    }
    let arrow = j + 1 < n && match &ts[j] {
        Tok::Punct(c, joint) => *c == '=' && *joint,
        _ => false,
    } && is_punct_exec(&ts[j + 1], '>');
    if !arrow {
        return Err(NSCFGError::ContentSeparatorError);
    }
    let text = render_tokens(ts, from, j);
    let (m, rest) = match read_modifier(text.as_str()) {
        Ok(p) => p,
        Err(x) => {
            return Err(x);
        },
    };
    let core = trim(rest.as_str());
    if core.unicode_len() == 0 {
        return Err(NSCFGError::EmptyArm);
    }
    let c = j + 2;
    let braced = c < n && match &ts[c] {
        Tok::Open(d) => *d == Delimiter::Brace,
        _ => false,
    };
    let e = if braced {
        find_close(ts, c + 1)
    } else {
        find_comma(ts, c)
    };
    let content = if braced {
        copy_range(ts, c + 1, e)
    } else {
        copy_range(ts, c, e)
    };
    let next = if braced && e < n {
        e + 1
    } else {
        e
    };
    if next < n && !is_punct_exec(&ts[next], ',') {
        return Err(NSCFGError::ArmSeparatorMissing);
    }
    let is_wildcard = str_eq(core.as_str(), "_");
    proof {
        reveal_strlit("_");
        assert("_"@ =~= seq!['_']);
    }
    let arm = Arm { modifier: m, condition: rest, content, braced, is_wildcard };
    Ok((
        arm,
        if next < n {
            next + 1
        } else {
            next
        },
    ))
}

/// Splits an invocation into its arms, in order.
pub fn extract_arms(ts: &Vec<Tok>) -> (r: Result<Vec<Arm>, NSCFGError>)
    ensures
        match (r, arms_spec(ts@, 0)) {
            (Ok(v), Ok(w)) => views(v@) == w,
            (Err(x), Err(y)) => x@ == y,
            _ => false,
        },
{
    let mut out: Vec<Arm> = Vec::new();
    let mut pos: usize = 0;
    while pos < ts.len()
        invariant
            pos <= ts@.len(),
            arms_spec(ts@, 0) == match arms_spec(ts@, pos as int) {
                Ok(rest) => Ok(views(out@) + rest),
                Err(x) => Err(x),
            },
        decreases ts@.len() - pos,
    {
        match read_arm(ts, pos) {
            Ok((a, next)) => {
                let ghost before = views(out@);
                out.push(a);
                assert(views(out@) =~= before.push(a@));
                proof {
                    match arms_spec(ts@, next as int) {
                        Ok(rest) => {
                            assert(before + (seq![a@] + rest) =~= before.push(a@) + rest);
                        },
                        Err(_) => {},
                    }
                }
                pos = next;
            },
            Err(x) => {
                return Err(x);
            },
        }
    }
    assert(views(out@) + Seq::<ArmView>::empty() =~= views(out@));
    Ok(out)
}

} // verus!
