//! Arm assembly and emission: placement rules, modifiers, documentation
//! wrapping, and the native attributes each construct expands to.
use vstd::prelude::*;
use crate::errors::{NSCFGError, ErrorView};
use crate::config::{Config, ReleaseModifierBehaviour};
use crate::syntax::{Node, Expr, condition_spec, parse_condition, render, names_doc, names_doc_text};
use crate::arm::{Tok, Delimiter, Modifier, Arm, ArmView, arms_spec, extract_arms, is_punct, step, views, copy_range};

verus! {

/// One piece of emitted code: an attribute written as text, or a token
/// passed through.
#[derive(Debug)]
pub enum Out {
    Attr(String),
    Code(Tok),
}

/// Mathematical model of [`Out`].
pub enum OutView {
    Attr(Seq<char>),
    Code(Tok),
}

impl View for Out {
    type V = OutView;

    open spec fn view(&self) -> OutView {
        match self {
            Out::Attr(s) => OutView::Attr(s@),
            Out::Code(t) => OutView::Code(*t),
        }
    }
}

impl Out {
    pub fn copy(&self) -> (r: Out)
        ensures
            r@ == self@,
    {
        match self {
            Out::Attr(s) => Out::Attr(s.clone()),
            Out::Code(t) => Out::Code(t.copy()),
        }
    }
}

pub open spec fn outs(v: Seq<Out>) -> Seq<OutView> {
    v.map_values(|o: Out| o@)
}

proof fn lemma_outs_push(a: Seq<Out>, x: Out)
    ensures
        outs(a.push(x)) == outs(a).push(x@),
{
    assert(outs(a.push(x)) =~= outs(a).push(x@));
}


/// Whether an exec expansion is the spec one.
pub open spec fn same_out(r: Result<Vec<Out>, NSCFGError>, s: Result<Seq<OutView>, ErrorView>) -> bool {
    match (r, s) {
        (Ok(v), Ok(w)) => outs(v@) == w,
        (Err(x), Err(y)) => x@ == y,
        _ => false,
    }
}

/// Item-level placement rule: no wildcard arm.
pub open spec fn target_check(arms: Seq<ArmView>) -> Result<(), ErrorView> {
    if exists|i: int| 0 <= i < arms.len() && #[trigger] arms[i].is_wildcard {
        Err(ErrorView::WildcardArmOnTarget)
    } else {
        Ok(())
    }
}

/// How many arms carry the activation modifier.
pub open spec fn count_activate(arms: Seq<ArmView>) -> nat
    decreases arms.len(),
{
    if arms.len() == 0 {
        0
    } else {
        (if arms.last().modifier == Modifier::Activate {
            1nat
        } else {
            0nat
        }) + count_activate(arms.drop_last())
    }
}

/// Function-scoped placement rules, checked in this order: the wildcard arm
/// is last, it exists, at most one arm is activated, the wildcard arm is
/// not deactivated.
pub open spec fn match_check(arms: Seq<ArmView>) -> Result<(), ErrorView> {
    let n = arms.len();
    if exists|i: int| 0 <= i < n - 1 && #[trigger] arms[i].is_wildcard {
        Err(ErrorView::WildcardArmNotLast)
    } else if n == 0 || !arms[n - 1].is_wildcard {
        Err(ErrorView::WildcardArmMissing)
    } else if count_activate(arms) > 1 {
        Err(ErrorView::MatchModifierMoreThanOneActivate)
    } else if arms[n - 1].modifier == Modifier::Deactivate {
        Err(ErrorView::MatchDeactivatedWildArm)
    } else {
        Ok(())
    }
}

/// Checks the item-level placement rule.
pub fn check_target_arms(arms: &Vec<Arm>) -> (r: Result<(), NSCFGError>)
    ensures
        match (r, target_check(views(arms@))) {
            (Ok(_), Ok(_)) => true,
            (Err(x), Err(y)) => x@ == y,
            _ => false,
        },
{
    let mut i: usize = 0;
    while i < arms.len()
        invariant
            i <= arms@.len(),
            forall|k: int| 0 <= k < i ==> !(#[trigger] views(arms@)[k]).is_wildcard,
        decreases arms@.len() - i,
    {
        if arms[i].is_wildcard {
            assert(views(arms@)[i as int].is_wildcard);
            return Err(NSCFGError::WildcardArmOnTarget);
        }
        i = i + 1;
    }
    Ok(())
}

/// Checks the function-scoped placement rules.
pub fn check_match_arms(arms: &Vec<Arm>) -> (r: Result<(), NSCFGError>)
    ensures
        match (r, match_check(views(arms@))) {
            (Ok(_), Ok(_)) => true,
            (Err(x), Err(y)) => x@ == y,
            _ => false,
        },
{
    let ghost v = views(arms@);
    let n = arms.len();
    let mut i: usize = 0;
    let mut activated: usize = 0;
    while i < n
        invariant
            n == arms@.len(),
            v == views(arms@),
            i <= n,
            activated == count_activate(v.subrange(0, i as int)),
            activated <= i,
            forall|k: int| 0 <= k < i && k < n - 1 ==> !(#[trigger] v[k]).is_wildcard,
        decreases n - i,
    {
        if arms[i].is_wildcard && i + 1 < n {
            assert(v[i as int].is_wildcard);
            return Err(NSCFGError::WildcardArmNotLast);
        }
        assert(v.subrange(0, i + 1).drop_last() =~= v.subrange(0, i as int));
        if arms[i].modifier == Modifier::Activate {
            activated = activated + 1;
        }
        i = i + 1;
    }
    assert(v.subrange(0, n as int) =~= v);
    if n == 0 || !arms[n - 1].is_wildcard {
        return Err(NSCFGError::WildcardArmMissing);
    }
    if activated > 1 {
        return Err(NSCFGError::MatchModifierMoreThanOneActivate);
    }
    if arms[n - 1].modifier == Modifier::Deactivate {
        return Err(NSCFGError::MatchDeactivatedWildArm);
    }
    Ok(())
}

/// The modifier that takes effect: outside a debug build the release-failure
/// modifier fails, or is dropped where the configuration says to ignore it.
pub open spec fn effective_modifier(m: Modifier, c: Config) -> Result<Modifier, ErrorView> {
    if m == Modifier::PanicOnRelease && !c.debug_build {
        if c.release_behaviour == ReleaseModifierBehaviour::Ignore {
            Ok(Modifier::Absent)
        } else {
            Err(ErrorView::ModifierPanicRelease)
        }
    } else {
        Ok(m)
    }
}

pub fn apply_release(m: Modifier, config: &Config) -> (r: Result<Modifier, NSCFGError>)
    ensures
        match (r, effective_modifier(m, *config)) {
            (Ok(a), Ok(b)) => a == b,
            (Err(x), Err(y)) => x@ == y,
            _ => false,
        },
{
    if m == Modifier::PanicOnRelease && !config.debug_build {
        if config.release_behaviour == ReleaseModifierBehaviour::Ignore {
            Ok(Modifier::Absent)
        } else {
            Err(NSCFGError::ModifierPanicRelease)
        }
    } else {
        Ok(m)
    }
}

/// The predicate that always holds.
pub open spec fn always() -> Expr {
    Expr::Leaf("all()"@)
}

/// The predicate that never holds.
pub open spec fn never() -> Expr {
    Expr::Leaf("any()"@)
}

fn always_node() -> (r: Node)
    ensures
        r@ == always(),
{
    Node::Leaf(String::from_str("all()"))
}

fn never_node() -> (r: Node)
    ensures
        r@ == never(),
{
    Node::Leaf(String::from_str("any()"))
}

/// The predicate of an item-level arm with condition text `text`: forced
/// on or off by its modifier, or its tree, wrapped as `doc | tree` when
/// autodocumentation is on and the text does not name `doc` literally
/// (legacy literals included; aliases are not expanded for this check).
pub open spec fn target_pred(c: Config, m: Modifier, text: Seq<char>, e: Expr) -> Expr {
    if m == Modifier::Activate {
        always()
    } else if m == Modifier::Deactivate {
        never()
    } else if c.autodoc && !names_doc(text) {
        Expr::Or(Box::new(Expr::Leaf("doc"@)), Box::new(e))
    } else {
        e
    }
}

/// `#[cfg(p)]`.
pub open spec fn cfg_header(p: Expr) -> Seq<char> {
    "#[cfg("@ + render(p) + ")]"@
}

/// `#[cfg_attr(docsrs, doc(cfg(p)))]`.
pub open spec fn doc_header(p: Expr) -> Seq<char> {
    "#[cfg_attr(docsrs, doc(cfg("@ + render(p) + ")))]"@
}

/// The attributes placed before each item of an item-level arm.
pub open spec fn target_headers(c: Config, m: Modifier, text: Seq<char>, e: Expr) -> Seq<OutView> {
    seq![OutView::Attr(cfg_header(target_pred(c, m, text, e)))] + if c.docsrs {
        seq![OutView::Attr(doc_header(e))]
    } else {
        Seq::empty()
    }
}

fn cfg_header_exec(p: &Node) -> (r: String)
    ensures
        r@ == cfg_header(p@),
{
    String::from_str("#[cfg(").concat(p.render().as_str()).concat(")]")
}

fn target_headers_exec(config: &Config, m: Modifier, text: &str, e: &Node) -> (r: Vec<Out>)
    ensures
        outs(r@) == target_headers(*config, m, text@, e@),
{
    let p = if m == Modifier::Activate {
        always_node()
    } else if m == Modifier::Deactivate {
        never_node()
    } else if config.autodoc && !names_doc_text(text) {
        let d = Node::Leaf(String::from_str("doc"));
        assert(d@ == Expr::Leaf("doc"@));
        Node::Or(Box::new(d), Box::new(e.copy()))
    } else {
        e.copy()
    };
    proof {
        if m != Modifier::Activate && m != Modifier::Deactivate && config.autodoc && !names_doc(text@) {
            assert(p@ == Expr::Or(Box::new(Expr::Leaf("doc"@)), Box::new(e@)));
        }
    }
    assert(p@ == target_pred(*config, m, text@, e@));
    let mut r: Vec<Out> = Vec::new();
    let h = cfg_header_exec(&p);
    r.push(Out::Attr(h));
    proof {
        lemma_outs_push(Seq::empty(), Out::Attr(h));
        assert(Seq::<Out>::empty().push(Out::Attr(h)) =~= r@);
        assert(outs(Seq::<Out>::empty()) =~= Seq::empty());
    }
    if config.docsrs {
        let d = String::from_str("#[cfg_attr(docsrs, doc(cfg(").concat(e.render().as_str()).concat(
            ")))]",
        );
        let ghost before = r@;
        r.push(Out::Attr(d));
        proof {
            lemma_outs_push(before, Out::Attr(d));
        }
    }
    assert(outs(r@) =~= target_headers(*config, m, text@, e@));
    r
}

/// End of the item that starts at or continues from `j`: after a top-level
/// `;`, or after a top-level braced group (and a `;` right after it) unless
/// a top-level `=` came first.
pub open spec fn item_end(ts: Seq<Tok>, j: int, d: nat, eq: bool) -> int
    decreases ts.len() - j,
{
    if j < 0 || j >= ts.len() {
        ts.len() as int
    } else if d == 0 && is_punct(ts[j], ';') {
        j + 1
    } else if d == 1 && !eq && ts[j] == Tok::Close(Delimiter::Brace) {
        if j + 1 < ts.len() && is_punct(ts[j + 1], ';') {
            j + 2
        } else {
            j + 1
        }
    } else {
        item_end(ts, j + 1, step(d, ts[j]), eq || (d == 0 && is_punct(ts[j], '=')))
    }
}

/// The top-level items of `ts` from `pos` on, each as its tokens. An item
/// always ends past its start, so the first branch after the scan is never
/// taken.
pub open spec fn items_from(ts: Seq<Tok>, pos: int) -> Seq<Seq<Tok>>
    decreases ts.len() - pos,
{
    if pos < 0 || pos >= ts.len() {
        Seq::empty()
    } else {
        let e = item_end(ts, pos, 0, false);
        if e <= pos || e > ts.len() {
            seq![ts.subrange(pos, ts.len() as int)]
        } else {
            seq![ts.subrange(pos, e)] + items_from(ts, e)
        }
    }
}

/// The top-level items of `ts`.
pub open spec fn items(ts: Seq<Tok>) -> Seq<Seq<Tok>> {
    items_from(ts, 0)
}

fn find_item_end(ts: &Vec<Tok>, from: usize) -> (r: usize)
    requires
        from < ts@.len(),
    ensures
        r == item_end(ts@, from as int, 0, false),
        from < r <= ts@.len(),
{
    let n = ts.len();
    let mut j = from;
    let mut d: usize = 0;
    let mut eq = false;
    while j < n
        invariant
            n == ts@.len(),
            from <= j <= n,
            d <= j,
            item_end(ts@, from as int, 0, false) == item_end(ts@, j as int, d as nat, eq),
            j == from ==> d == 0 && !eq,
        decreases n - j,
    {
        let t = &ts[j];
        let semi = match t {
            Tok::Punct(c, _) => *c == ';',
            _ => false,
        };
        let close_brace = match t {
            Tok::Close(Delimiter::Brace) => true,
            _ => false,
        };
        if d == 0 && semi {
            return j + 1;
        }
        if d == 1 && !eq && close_brace {
            if j + 1 < n && match &ts[j + 1] {
                Tok::Punct(c, _) => *c == ';',
                _ => false,
            } {
                return j + 2;
            }
            return j + 1;
        }
        let is_eq = match t {
            Tok::Punct(c, _) => *c == '=',
            _ => false,
        };
        eq = eq || (d == 0 && is_eq);
        d = match t {
            Tok::Open(_) => d + 1,
            Tok::Close(_) => if d > 0 {
                d - 1
            } else {
                0
            },
            _ => d,
        };
        j = j + 1;
    }
    j
}

/// Splits a block into its top-level items, without altering any item.
pub fn split_items(ts: &Vec<Tok>) -> (r: Vec<Vec<Tok>>)
    ensures
        r@.map_values(|v: Vec<Tok>| v@) == items(ts@),
{
    let n = ts.len();
    let mut r: Vec<Vec<Tok>> = Vec::new();
    let mut pos: usize = 0;
    while pos < n
        invariant
            n == ts@.len(),
            pos <= n,
            items(ts@) == r@.map_values(|v: Vec<Tok>| v@) + items_from(ts@, pos as int),
        decreases n - pos,
    {
        let e = find_item_end(ts, pos);
        let ghost before = r@.map_values(|v: Vec<Tok>| v@);
        r.push(copy_range(ts, pos, e));
        assert(r@.map_values(|v: Vec<Tok>| v@) =~= before.push(ts@.subrange(pos as int, e as int)));
        assert(before + items_from(ts@, pos as int) =~= r@.map_values(|v: Vec<Tok>| v@)
            + items_from(ts@, e as int));
        pos = e;
    }
    assert(r@.map_values(|v: Vec<Tok>| v@) + items_from(ts@, n as int) =~= r@.map_values(
        |v: Vec<Tok>| v@,
    ));
    r
}

/// Tokens passed through as code.
pub open spec fn code(ts: Seq<Tok>) -> Seq<OutView> {
    ts.map_values(|t: Tok| OutView::Code(t))
}

/// Each item preceded by the headers.
pub open spec fn headed_items(hs: Seq<OutView>, its: Seq<Seq<Tok>>) -> Seq<OutView>
    decreases its.len(),
{
    if its.len() == 0 {
        Seq::empty()
    } else {
        hs + code(its[0]) + headed_items(hs, its.drop_first())
    }
}

fn push_code(out: &mut Vec<Out>, ts: &Vec<Tok>)
    ensures
        outs(final(out)@) == outs(old(out)@) + code(ts@),
{
    let ghost start = outs(out@);
    let mut i: usize = 0;
    while i < ts.len()
        invariant
            i <= ts@.len(),
            outs(out@) == start + code(ts@.subrange(0, i as int)),
        decreases ts@.len() - i,
    {
        let ghost before = out@;
        let t = ts[i].copy();
        out.push(Out::Code(t));
        proof {
            lemma_outs_push(before, Out::Code(t));
            assert(code(ts@.subrange(0, i + 1)) =~= code(ts@.subrange(0, i as int)).push(
                OutView::Code(t),
            ));
            assert(outs(out@) =~= start + code(ts@.subrange(0, i + 1)));
        }
        i = i + 1;
    }
    assert(ts@.subrange(0, ts@.len() as int) =~= ts@);
}

fn push_outs(out: &mut Vec<Out>, hs: &Vec<Out>)
    ensures
        outs(final(out)@) == outs(old(out)@) + outs(hs@),
{
    let ghost start = outs(out@);
    let mut i: usize = 0;
    while i < hs.len()
        invariant
            i <= hs@.len(),
            outs(out@) == start + outs(hs@.subrange(0, i as int)),
        decreases hs@.len() - i,
    {
        let ghost before = out@;
        let o = hs[i].copy();
        out.push(o);
        proof {
            lemma_outs_push(before, o);
            assert(hs@.subrange(0, i + 1) =~= hs@.subrange(0, i as int).push(hs@[i as int]));
            lemma_outs_push(hs@.subrange(0, i as int), hs@[i as int]);
            assert(outs(out@) =~= start + outs(hs@.subrange(0, i + 1)));
        }
        i = i + 1;
    }
    assert(hs@.subrange(0, hs@.len() as int) =~= hs@);
}

fn push_headed_items(out: &mut Vec<Out>, hs: &Vec<Out>, its: &Vec<Vec<Tok>>)
    ensures
        outs(final(out)@) == outs(old(out)@) + headed_items(
            outs(hs@),
            its@.map_values(|v: Vec<Tok>| v@),
        ),
{
    let ghost start = outs(out@);
    let ghost all = its@.map_values(|v: Vec<Tok>| v@);
    let mut i: usize = 0;
    assert(all.subrange(0, all.len() as int) =~= all);
    while i < its.len()
        invariant
            i <= its@.len(),
            all == its@.map_values(|v: Vec<Tok>| v@),
            start + headed_items(outs(hs@), all) == outs(out@) + headed_items(
                outs(hs@),
                all.subrange(i as int, all.len() as int),
            ),
        decreases its@.len() - i,
    {
        let ghost mid = outs(out@);
        let ghost rest = all.subrange(i as int, all.len() as int);
        assert(rest.drop_first() =~= all.subrange(i + 1, all.len() as int));
        push_outs(out, hs);
        push_code(out, &its[i]);
        assert(mid + (outs(hs@) + code(rest[0]) + headed_items(outs(hs@), rest.drop_first()))
            =~= outs(out@) + headed_items(outs(hs@), all.subrange(i + 1, all.len() as int)));
        i = i + 1;
    }
    assert(outs(out@) + headed_items(outs(hs@), all.subrange(i as int, all.len() as int))
        =~= outs(out@));
}

/// The expansion of one item-level arm.
pub open spec fn target_arm(c: Config, a: ArmView) -> Result<Seq<OutView>, ErrorView> {
    match effective_modifier(a.modifier, c) {
        Err(x) => Err(x),
        Ok(m) => match condition_spec(c, a.condition) {
            Err(x) => Err(x),
            Ok(e) => Ok(headed_items(target_headers(c, m, a.condition, e), items(a.content))),
        },
    }
}

/// The expansion of item-level arms, in order.
pub open spec fn target_from(c: Config, arms: Seq<ArmView>) -> Result<Seq<OutView>, ErrorView>
    decreases arms.len(),
{
    if arms.len() == 0 {
        Ok(Seq::empty())
    } else {
        match target_arm(c, arms[0]) {
            Err(x) => Err(x),
            Ok(o) => match target_from(c, arms.drop_first()) {
                Ok(rest) => Ok(o + rest),
                Err(x) => Err(x),
            },
        }
    }
}

fn push_target_arm(config: &Config, a: &Arm, out: &mut Vec<Out>) -> (r: Result<(), NSCFGError>)
    ensures
        match (r, target_arm(*config, a@)) {
            (Ok(_), Ok(o)) => outs(final(out)@) == outs(old(out)@) + o,
            (Err(x), Err(y)) => x@ == y,
            _ => false,
        },
{
    let m = match apply_release(a.modifier, config) {
        Ok(m) => m,
        Err(x) => {
            return Err(x);
        },
    };
    let e = match parse_condition(config, a.condition.as_str()) {
        Ok(e) => e,
        Err(x) => {
            return Err(x);
        },
    };
    let hs = target_headers_exec(config, m, a.condition.as_str(), &e);
    let its = split_items(&a.content);
    push_headed_items(out, &hs, &its);
    Ok(())
}

/// The expansion of an item-level invocation.
pub open spec fn target_spec(c: Config, ts: Seq<Tok>) -> Result<Seq<OutView>, ErrorView> {
    match arms_spec(ts, 0) {
        Err(x) => Err(x),
        Ok(arms) => match target_check(arms) {
            Err(x) => Err(x),
            Ok(_) => target_from(c, arms),
        },
    }
}

/// Expands an item-level invocation: every arm whose predicate holds is
/// kept, each of its items under the arm's attributes.
pub fn target_cfg(config: &Config, item: &Vec<Tok>) -> (r: Result<Vec<Out>, NSCFGError>)
    ensures
        same_out(r, target_spec(*config, item@)),
{
    let arms = match extract_arms(item) {
        Ok(a) => a,
        Err(x) => {
            return Err(x);
        },
    };
    match check_target_arms(&arms) {
        Ok(_) => {},
        Err(x) => {
            return Err(x);
        },
    }
    let ghost v = views(arms@);
    let mut out: Vec<Out> = Vec::new();
    let mut i: usize = 0;
    assert(v.subrange(0, v.len() as int) =~= v);
    while i < arms.len()
        invariant
            i <= arms@.len(),
            v == views(arms@),
            target_spec(*config, item@) == target_from(*config, v),
            target_from(*config, v) == match target_from(
                *config,
                v.subrange(i as int, v.len() as int),
            ) {
                Ok(rest) => Ok(outs(out@) + rest),
                Err(x) => Err(x),
            },
        decreases arms@.len() - i,
    {
        let ghost rest = v.subrange(i as int, v.len() as int);
        assert(rest.drop_first() =~= v.subrange(i + 1, v.len() as int));
        assert(rest[0] == arms@[i as int]@);
        let ghost mid = outs(out@);
        match push_target_arm(config, &arms[i], &mut out) {
            Ok(_) => {},
            Err(x) => {
                assert(target_from(*config, rest) == Err::<Seq<OutView>, ErrorView>(x@));
                return Err(x);
            },
        }
        proof {
            match target_from(*config, v.subrange(i + 1, v.len() as int)) {
                Ok(r2) => {
                    let o = target_arm(*config, rest[0])->Ok_0;
                    assert(mid + (o + r2) =~= outs(out@) + r2);
                },
                Err(_) => {},
            }
        }
        i = i + 1;
    }
    assert(outs(out@) + Seq::<OutView>::empty() =~= outs(out@));
    Ok(out)
}

/// The predicate of a non-wildcard arm of a function-scoped construct
/// before exclusion: forced on by `+`; forced off by `-`, or because
/// another arm is activated; else its tree.
pub open spec fn match_base(any_act: bool, m: Modifier, e: Expr) -> Expr {
    if m == Modifier::Activate {
        always()
    } else if any_act || m == Modifier::Deactivate {
        never()
    } else {
        e
    }
}

/// `#[cfg(g)] { content }`.
pub open spec fn guarded_block(g: Expr, content: Seq<Tok>) -> Seq<OutView> {
    seq![OutView::Attr(cfg_header(g)), OutView::Code(Tok::Open(Delimiter::Brace))] + code(content)
        + seq![OutView::Code(Tok::Close(Delimiter::Brace))]
}

/// The expansion of one function-scoped arm, and the union of the arms so
/// far; each arm is guarded so that it holds only where no earlier one does.
pub open spec fn match_arm(c: Config, a: ArmView, any_act: bool, prev: Option<Expr>) -> Result<
    (Seq<OutView>, Option<Expr>),
    ErrorView,
> {
    match effective_modifier(a.modifier, c) {
        Err(x) => Err(x),
        Ok(m) => if a.is_wildcard {
            let g = match prev {
                None => always(),
                Some(p) => Expr::Not(Box::new(p)),
            };
            Ok((guarded_block(g, a.content), prev))
        } else {
            match condition_spec(c, a.condition) {
                Err(x) => Err(x),
                Ok(e) => {
                    let b = match_base(any_act, m, e);
                    let g = match prev {
                        None => b,
                        Some(p) => Expr::And(Box::new(b), Box::new(Expr::Not(Box::new(p)))),
                    };
                    let np = match prev {
                        None => b,
                        Some(p) => Expr::Or(Box::new(p), Box::new(b)),
                    };
                    Ok((guarded_block(g, a.content), Some(np)))
                },
            }
        },
    }
}

/// The expansion of function-scoped arms, in order.
pub open spec fn match_from(c: Config, arms: Seq<ArmView>, any_act: bool, prev: Option<Expr>) -> Result<
    Seq<OutView>,
    ErrorView,
>
    decreases arms.len(),
{
    if arms.len() == 0 {
        Ok(Seq::empty())
    } else {
        match match_arm(c, arms[0], any_act, prev) {
            Err(x) => Err(x),
            Ok((o, np)) => match match_from(c, arms.drop_first(), any_act, np) {
                Ok(rest) => Ok(o + rest),
                Err(x) => Err(x),
            },
        }
    }
}

/// The expansion of a function-scoped invocation: one block holding the
/// guarded arms in input order.
pub open spec fn match_spec(c: Config, ts: Seq<Tok>) -> Result<Seq<OutView>, ErrorView> {
    match arms_spec(ts, 0) {
        Err(x) => Err(x),
        Ok(arms) => match match_check(arms) {
            Err(x) => Err(x),
            Ok(_) => match match_from(c, arms, count_activate(arms) > 0, None) {
                Ok(o) => Ok(seq![OutView::Code(Tok::Open(Delimiter::Brace))] + o + seq![
                    OutView::Code(Tok::Close(Delimiter::Brace)),
                ]),
                Err(x) => Err(x),
            },
        },
    }
}

pub open spec fn opt_view(o: Option<Node>) -> Option<Expr> {
    match o {
        Some(n) => Some(n@),
        None => None,
    }
}

fn push_out(out: &mut Vec<Out>, o: Out)
    ensures
        outs(final(out)@) == outs(old(out)@).push(o@),
{
    let ghost before = out@;
    out.push(o);
    proof {
        lemma_outs_push(before, o);
    }
}

fn push_guarded_block(out: &mut Vec<Out>, g: &Node, content: &Vec<Tok>)
    ensures
        outs(final(out)@) == outs(old(out)@) + guarded_block(g@, content@),
{
    let ghost start = outs(out@);
    push_out(out, Out::Attr(cfg_header_exec(g)));
    push_out(out, Out::Code(Tok::Open(Delimiter::Brace)));
    push_code(out, content);
    push_out(out, Out::Code(Tok::Close(Delimiter::Brace)));
    assert(outs(out@) =~= start + guarded_block(g@, content@));
}

fn push_match_arm(config: &Config, a: &Arm, any_act: bool, prev: Option<Node>, out: &mut Vec<Out>) -> (r:
    Result<Option<Node>, NSCFGError>)
    ensures
        match (r, match_arm(*config, a@, any_act, opt_view(prev))) {
            (Ok(np), Ok((o, p))) => outs(final(out)@) == outs(old(out)@) + o && opt_view(np) == p,
            (Err(x), Err(y)) => x@ == y,
            _ => false,
        },
{
    let m = match apply_release(a.modifier, config) {
        Ok(m) => m,
        Err(x) => {
            return Err(x);
        },
    };
    if a.is_wildcard {
        let g = match &prev {
            None => always_node(),
            Some(p) => {
                let n = Node::Not(Box::new(p.copy()));
                assert(n@ == Expr::Not(Box::new(p@)));
                n
            },
        };
        push_guarded_block(out, &g, &a.content);
        return Ok(prev);
    }
    let e = match parse_condition(config, a.condition.as_str()) {
        Ok(e) => e,
        Err(x) => {
            return Err(x);
        },
    };
    let ghost ev = e@;
    let b = if m == Modifier::Activate {
        always_node()
    } else if any_act || m == Modifier::Deactivate {
        never_node()
    } else {
        e
    };
    assert(b@ == match_base(any_act, m, ev));
    let (g, np) = match prev {
        None => (b.copy(), b),
        Some(p) => {
            let ghost pv = p@;
            let n = Node::Not(Box::new(p.copy()));
            assert(n@ == Expr::Not(Box::new(pv)));
            let b2 = b.copy();
            let g = Node::And(Box::new(b2), Box::new(n));
            assert(g@ == Expr::And(Box::new(b@), Box::new(Expr::Not(Box::new(pv)))));
            let np = Node::Or(Box::new(p), Box::new(b));
            assert(np@ == Expr::Or(Box::new(pv), Box::new(match_base(any_act, m, ev))));
            (g, np)
        },
    };
    push_guarded_block(out, &g, &a.content);
    Ok(Some(np))
}

fn has_activate(arms: &Vec<Arm>) -> (r: bool)
    ensures
        r == (count_activate(views(arms@)) > 0),
{
    let ghost v = views(arms@);
    let n = arms.len();
    let mut i: usize = 0;
    let mut found = false;
    while i < n
        invariant
            n == arms@.len(),
            v == views(arms@),
            i <= n,
            found == (count_activate(v.subrange(0, i as int)) > 0),
        decreases n - i,
    {
        assert(v.subrange(0, i + 1).drop_last() =~= v.subrange(0, i as int));
        if arms[i].modifier == Modifier::Activate {
            found = true;
        }
        i = i + 1;
    }
    assert(v.subrange(0, n as int) =~= v);
    found
}

/// Expands a function-scoped invocation: the first arm whose predicate
/// holds is kept; the wildcard arm holds where no other does.
pub fn match_cfg(config: &Config, item: &Vec<Tok>) -> (r: Result<Vec<Out>, NSCFGError>)
    ensures
        same_out(r, match_spec(*config, item@)),
{
    let arms = match extract_arms(item) {
        Ok(a) => a,
        Err(x) => {
            return Err(x);
        },
    };
    match check_match_arms(&arms) {
        Ok(_) => {},
        Err(x) => {
            return Err(x);
        },
    }
    let any_act = has_activate(&arms);
    let ghost v = views(arms@);
    let ghost whole = match_from(*config, v, any_act, None);
    let ghost open = seq![OutView::Code(Tok::Open(Delimiter::Brace))];
    let ghost mut acc: Seq<OutView> = Seq::empty();
    let mut out: Vec<Out> = Vec::new();
    push_out(&mut out, Out::Code(Tok::Open(Delimiter::Brace)));
    let mut prev: Option<Node> = None;
    let mut i: usize = 0;
    assert(v.subrange(0, v.len() as int) =~= v);
    assert(outs(out@) =~= open + acc);
    while i < arms.len()
        invariant
            i <= arms@.len(),
            v == views(arms@),
            whole == match_from(*config, v, any_act, None),
            open == seq![OutView::Code(Tok::Open(Delimiter::Brace))],
            match_spec(*config, item@) == match whole {
                Ok(o) => Ok(open + o + seq![OutView::Code(Tok::Close(Delimiter::Brace))]),
                Err(x) => Err(x),
            },
            outs(out@) == open + acc,
            whole == match match_from(
                *config,
                v.subrange(i as int, v.len() as int),
                any_act,
                opt_view(prev),
            ) {
                Ok(rest) => Ok(acc + rest),
                Err(x) => Err(x),
            },
        decreases arms@.len() - i,
    {
        let ghost rest = v.subrange(i as int, v.len() as int);
        assert(rest.drop_first() =~= v.subrange(i + 1, v.len() as int));
        assert(rest[0] == arms@[i as int]@);
        let ghost pv = opt_view(prev);
        let ghost mid = outs(out@);
        match push_match_arm(config, &arms[i], any_act, prev, &mut out) {
            Ok(np) => {
                prev = np;
            },
            Err(x) => {
                assert(match_from(*config, rest, any_act, pv) == Err::<Seq<OutView>, ErrorView>(
                    x@,
                ));
                return Err(x);
            },
        }
        proof {
            let (o, p2) = match_arm(*config, rest[0], any_act, pv)->Ok_0;
            match match_from(*config, v.subrange(i + 1, v.len() as int), any_act, p2) {
                Ok(r2) => {
                    assert(acc + (o + r2) =~= (acc + o) + r2);
                },
                Err(_) => {},
            }
            assert(mid + o =~= open + (acc + o));
            acc = acc + o;
        }
        i = i + 1;
    }
    push_out(&mut out, Out::Code(Tok::Close(Delimiter::Brace)));
    assert(acc + Seq::<OutView>::empty() =~= acc);
    assert(outs(out@) =~= open + acc + seq![OutView::Code(Tok::Close(Delimiter::Brace))]);
    Ok(out)
}

/// The invocation that the attribute form stands for: the single arm
/// `attr => { item }`.
pub open spec fn meta_tokens(attr: Seq<Tok>, item: Seq<Tok>) -> Seq<Tok> {
    attr + seq![Tok::Punct('=', true), Tok::Punct('>', false), Tok::Open(Delimiter::Brace)] + item
        + seq![Tok::Close(Delimiter::Brace)]
}

/// Expands the attribute form: the item-level construct with the one arm
/// `attr => { item }`.
#[verifier::rlimit(40)]
pub fn meta_cfg(config: &Config, attr: &Vec<Tok>, item: &Vec<Tok>) -> (r: Result<Vec<Out>, NSCFGError>)
    ensures
        same_out(r, target_spec(*config, meta_tokens(attr@, item@))),
{
    let mut stream: Vec<Tok> = Vec::new();
    let mut i: usize = 0;
    while i < attr.len()
        invariant
            i <= attr@.len(),
            stream@ == attr@.subrange(0, i as int),
        decreases attr@.len() - i,
    {
        stream.push(attr[i].copy());
        assert(stream@ =~= attr@.subrange(0, i + 1));
        i = i + 1;
    }
    stream.push(Tok::Punct('=', true));
    stream.push(Tok::Punct('>', false));
    stream.push(Tok::Open(Delimiter::Brace));
    let ghost head = stream@;
    let mut j: usize = 0;
    while j < item.len()
        invariant
            j <= item@.len(),
            stream@ == head + item@.subrange(0, j as int),
        decreases item@.len() - j,
    {
        stream.push(item[j].copy());
        assert(stream@ =~= head + item@.subrange(0, j + 1));
        j = j + 1;
    }
    stream.push(Tok::Close(Delimiter::Brace));
    assert(stream@ =~= meta_tokens(attr@, item@));
    target_cfg(config, &stream)
}

} // verus!
