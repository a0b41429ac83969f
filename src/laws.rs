//! Properties of the engine that relate several functions or all inputs.
use vstd::prelude::*;
use crate::errors::ErrorView;
use crate::config::{Config, lookup_pairs, alias_of, builtin_alias};
use crate::text::{is_ws, is_word, trim_start, trim_end, trim_spec, first_index_of};
use crate::syntax::{Expr, names_doc, doc_at, condition_spec, has_legacy_mark, has_simplified_op, simple_spec, word_spec, word_end, expr_spec, unary_spec, rest_spec, first_invalid, is_cond, MAX_ALIAS_DEPTH};
use crate::arm::{Tok, Delimiter, Modifier, ArmView, arms_spec};
use crate::emit::{OutView, effective_modifier, target_check, count_activate, target_from, target_arm, match_from, match_arm, target_spec, match_spec};

verus! {

/// Item-level arms are emitted in input order: the expansion of `a + b` is
/// the expansion of `a` followed by that of `b`, and the first failing arm
/// decides the error.
pub proof fn lemma_target_order(c: Config, a: Seq<ArmView>, b: Seq<ArmView>)
    ensures
        target_from(c, a + b) == match target_from(c, a) {
            Err(x) => Err(x),
            Ok(oa) => match target_from(c, b) {
                Ok(ob) => Ok(oa + ob),
                Err(x) => Err(x),
            },
        },
    decreases a.len(),
{
    if a.len() == 0 {
        assert(a + b =~= b);
        match target_from(c, b) {
            Ok(ob) => {
                assert(Seq::<OutView>::empty() + ob =~= ob);
            },
            Err(_) => {},
        }
    } else {
        assert((a + b).drop_first() =~= a.drop_first() + b);
        assert((a + b)[0] == a[0]);
        lemma_target_order(c, a.drop_first(), b);
        match (target_arm(c, a[0]), target_from(c, a.drop_first()), target_from(c, b)) {
            (Ok(o), Ok(r), Ok(ob)) => {
                assert(o + (r + ob) =~= (o + r) + ob);
            },
            _ => {},
        }
    }
}

/// The union of earlier arms' predicates after the function-scoped arms `a`.
pub open spec fn match_prev_after(c: Config, a: Seq<ArmView>, any_act: bool, prev: Option<Expr>) -> Option<Expr>
    decreases a.len(),
{
    if a.len() == 0 {
        prev
    } else {
        match match_arm(c, a[0], any_act, prev) {
            Ok((_, np)) => match_prev_after(c, a.drop_first(), any_act, np),
            Err(_) => prev,
        }
    }
}

/// Function-scoped arms are emitted in input order: the expansion of `a + b`
/// is the expansion of `a` followed by that of `b`, `b` being guarded
/// against every arm of `a`.
pub proof fn lemma_match_order(c: Config, a: Seq<ArmView>, b: Seq<ArmView>, any_act: bool, prev: Option<Expr>)
    ensures
        match_from(c, a + b, any_act, prev) == match match_from(c, a, any_act, prev) {
            Err(x) => Err(x),
            Ok(oa) => match match_from(c, b, any_act, match_prev_after(c, a, any_act, prev)) {
                Ok(ob) => Ok(oa + ob),
                Err(x) => Err(x),
            },
        },
    decreases a.len(),
{
    if a.len() == 0 {
        assert(a + b =~= b);
        match match_from(c, b, any_act, prev) {
            Ok(ob) => {
                assert(Seq::<OutView>::empty() + ob =~= ob);
            },
            Err(_) => {},
        }
    } else {
        assert((a + b).drop_first() =~= a.drop_first() + b);
        assert((a + b)[0] == a[0]);
        match match_arm(c, a[0], any_act, prev) {
            Ok((o, np)) => {
                lemma_match_order(c, a.drop_first(), b, any_act, np);
                match (match_from(c, a.drop_first(), any_act, np), match_from(
                    c,
                    b,
                    any_act,
                    match_prev_after(c, a, any_act, prev),
                )) {
                    (Ok(r), Ok(ob)) => {
                        assert(o + (r + ob) =~= (o + r) + ob);
                    },
                    _ => {},
                }
            },
            Err(_) => {},
        }
    }
}

/// An item-level invocation with a wildcard arm fails with
/// `WildcardArmOnTarget`; without one it passes the placement rule.
pub proof fn lemma_target_wildcard(c: Config, ts: Seq<Tok>)
    requires
        arms_spec(ts, 0) is Ok,
    ensures
        (exists|i: int|
            0 <= i < arms_spec(ts, 0)->Ok_0.len() && #[trigger] arms_spec(ts, 0)->Ok_0[i].is_wildcard)
            ==> target_spec(c, ts) == Err::<Seq<OutView>, ErrorView>(ErrorView::WildcardArmOnTarget),
        (forall|i: int|
            0 <= i < arms_spec(ts, 0)->Ok_0.len() ==> !#[trigger] arms_spec(ts, 0)->Ok_0[i].is_wildcard)
            ==> target_check(arms_spec(ts, 0)->Ok_0) is Ok,
{
}

/// A function-scoped invocation without a wildcard arm fails with
/// `WildcardArmMissing`; one whose wildcard arm is not last fails with
/// `WildcardArmNotLast`.
pub proof fn lemma_match_wildcard(c: Config, ts: Seq<Tok>)
    requires
        arms_spec(ts, 0) is Ok,
    ensures
        (forall|i: int|
            0 <= i < arms_spec(ts, 0)->Ok_0.len() ==> !#[trigger] arms_spec(ts, 0)->Ok_0[i].is_wildcard)
            ==> match_spec(c, ts) == Err::<Seq<OutView>, ErrorView>(ErrorView::WildcardArmMissing),
        (exists|i: int|
            0 <= i < arms_spec(ts, 0)->Ok_0.len() - 1 && #[trigger] arms_spec(ts, 0)->Ok_0[i].is_wildcard)
            ==> match_spec(c, ts) == Err::<Seq<OutView>, ErrorView>(ErrorView::WildcardArmNotLast),
{
    let arms = arms_spec(ts, 0)->Ok_0;
    let n = arms.len();
    if forall|i: int| 0 <= i < n ==> !#[trigger] arms[i].is_wildcard {
        assert(!exists|i: int| 0 <= i < n - 1 && #[trigger] arms[i].is_wildcard);
        if n > 0 {
            assert(!arms[n - 1].is_wildcard);
        }
    }
}

/// Whether the wildcard arm is exactly the last arm.
pub open spec fn wildcard_last(arms: Seq<ArmView>) -> bool {
    &&& arms.len() > 0
    &&& arms[arms.len() - 1].is_wildcard
    &&& forall|i: int| 0 <= i < arms.len() - 1 ==> !#[trigger] arms[i].is_wildcard
}

/// A function-scoped invocation whose wildcard arm is in place and that
/// activates more than one arm fails with `MatchModifierMoreThanOneActivate`.
pub proof fn lemma_match_one_activate(c: Config, ts: Seq<Tok>)
    requires
        arms_spec(ts, 0) is Ok,
        wildcard_last(arms_spec(ts, 0)->Ok_0),
        count_activate(arms_spec(ts, 0)->Ok_0) > 1,
    ensures
        match_spec(c, ts) == Err::<Seq<OutView>, ErrorView>(
            ErrorView::MatchModifierMoreThanOneActivate,
        ),
{
}

/// A function-scoped invocation whose wildcard arm is in place, that
/// activates at most one arm and deactivates the wildcard arm fails with
/// `MatchDeactivatedWildArm`.
pub proof fn lemma_match_deactivated_wildcard(c: Config, ts: Seq<Tok>)
    requires
        arms_spec(ts, 0) is Ok,
        wildcard_last(arms_spec(ts, 0)->Ok_0),
        count_activate(arms_spec(ts, 0)->Ok_0) <= 1,
        arms_spec(ts, 0)->Ok_0.last().modifier == Modifier::Deactivate,
    ensures
        match_spec(c, ts) == Err::<Seq<OutView>, ErrorView>(ErrorView::MatchDeactivatedWildArm),
{
}

proof fn lemma_trim_keeps(s: Seq<char>, k: int)
    requires
        0 <= k < s.len(),
        !is_ws(s[k]),
    ensures
        exists|j: int| 0 <= j < trim_spec(s).len() && trim_spec(s)[j] == s[k],
{
    lemma_trim_start_keeps(s, k);
    let j = choose|j: int| 0 <= j < trim_start(s).len() && trim_start(s)[j] == s[k];
    lemma_trim_end_keeps(trim_start(s), j);
    let i = choose|i: int| 0 <= i < trim_end(trim_start(s)).len() && trim_end(trim_start(s))[i] == trim_start(s)[j];
    assert(0 <= i < trim_spec(s).len() && trim_spec(s)[i] == s[k]);
}

proof fn lemma_trim_start_keeps(s: Seq<char>, k: int)
    requires
        0 <= k < s.len(),
        !is_ws(s[k]),
    ensures
        exists|j: int| 0 <= j < trim_start(s).len() && trim_start(s)[j] == s[k],
    decreases s.len(),
{
    if s.len() > 0 && is_ws(s[0]) {
        assert(k > 0);
        assert(s.drop_first()[k - 1] == s[k]);
        lemma_trim_start_keeps(s.drop_first(), k - 1);
        assert(trim_start(s) == trim_start(s.drop_first()));
        let j = choose|j: int| 0 <= j < trim_start(s.drop_first()).len() && trim_start(s.drop_first())[j] == s[k];
        assert(0 <= j < trim_start(s).len() && trim_start(s)[j] == s[k]);
    } else {
        assert(trim_start(s) == s);
        assert(0 <= k < trim_start(s).len() && trim_start(s)[k] == s[k]);
    }
}

proof fn lemma_trim_end_keeps(s: Seq<char>, k: int)
    requires
        0 <= k < s.len(),
        !is_ws(s[k]),
    ensures
        exists|j: int| 0 <= j < trim_end(s).len() && trim_end(s)[j] == s[k],
    decreases s.len(),
{
    if s.len() > 0 && is_ws(s.last()) {
        assert(k < s.len() - 1);
        assert(s.drop_last()[k] == s[k]);
        lemma_trim_end_keeps(s.drop_last(), k);
        assert(trim_end(s) == trim_end(s.drop_last()));
        let j = choose|j: int| 0 <= j < trim_end(s.drop_last()).len() && trim_end(s.drop_last())[j] == s[k];
        assert(0 <= j < trim_end(s).len() && trim_end(s)[j] == s[k]);
    } else {
        assert(trim_end(s) == s);
        assert(0 <= k < trim_end(s).len() && trim_end(s)[k] == s[k]);
    }
}

/// A condition that holds both the legacy marker `#` and an operator of
/// the simplified syntax outside string literals fails with
/// `MixedSyntaxError`, whichever comes first.
pub proof fn lemma_mixed_syntax(c: Config, s: Seq<char>)
    requires
        has_legacy_mark(s),
        has_simplified_op(s),
    ensures
        condition_spec(c, s) == Err::<Expr, ErrorView>(ErrorView::MixedSyntaxError),
{
    let k = choose|k: int| 0 <= k < s.len() && s[k] == '#';
    lemma_trim_keeps(s, k);
    assert(trim_spec(s).len() > 0);
}

proof fn lemma_word_end(s: Seq<char>, i: int)
    requires
        0 <= i <= s.len(),
        forall|k: int| 0 <= k < s.len() ==> is_word(#[trigger] s[k]),
    ensures
        word_end(s, i) == s.len(),
    decreases s.len() - i,
{
    if i < s.len() {
        lemma_word_end(s, i + 1);
    }
}

/// A condition that is one word is that word's tree.
proof fn lemma_single_word(c: Config, s: Seq<char>, d: nat)
    requires
        s.len() > 0,
        forall|k: int| 0 <= k < s.len() ==> is_word(#[trigger] s[k]),
    ensures
        simple_spec(c, s, d) == word_spec(c, s, d),
{
    assert forall|k: int| 0 <= k < s.len() implies is_cond(#[trigger] s[k]) by {
        assert(is_word(s[k]));
    }
    assert(first_invalid(s) is None);
    lemma_word_end(s, 0);
    assert(s.subrange(0, s.len() as int) =~= s);
    assert(is_word(s[0]));
    match word_spec(c, s, d) {
        Ok(e) => {
            assert(unary_spec(c, s, 0, d) == Ok::<(Expr, int), ErrorView>((e, s.len() as int)));
            assert(rest_spec(c, s, s.len() as int, d, e) == Ok::<(Expr, int), ErrorView>((e, s.len() as int)));
            assert(expr_spec(c, s, 0, d) == Ok::<(Expr, int), ErrorView>((e, s.len() as int)));
        },
        Err(x) => {
            assert(unary_spec(c, s, 0, d) == Err::<(Expr, int), ErrorView>(x));
        },
    }
}

/// Whether `s` starts and ends with a character that is not whitespace.
proof fn lemma_trim_noop(s: Seq<char>)
    requires
        s.len() > 0,
        !is_ws(s[0]),
        !is_ws(s.last()),
    ensures
        trim_spec(s) == s,
{
}

/// An alias stands for its expansion: a condition that is one alias
/// resolves, `d` levels deep, to the tree of its expansion resolved one
/// level less deep.
pub proof fn lemma_alias_substitution(c: Config, w: Seq<char>, d: nat)
    requires
        w.len() > 0,
        forall|k: int| 0 <= k < w.len() ==> is_word(#[trigger] w[k]),
        forall|k: int| 0 <= k < w.len() ==> w[k] != ':',
        alias_of(c, w) is Some,
        d > 0,
    ensures
        simple_spec(c, w, d) == simple_spec(c, alias_of(c, w)->Some_0, (d - 1) as nat),
{
    lemma_single_word(c, w, d);
    assert(first_index_of(w, ':') is None);
}

/// Resolving the alias `linux` gives the tree that resolving the predicate
/// reference `linux:os` (label `linux`, key `os`) gives directly, unless the
/// alias is overridden.
pub proof fn lemma_alias_round_trip(c: Config)
    requires
        lookup_pairs(c.alias_overrides@, "linux"@) is None,
    ensures
        condition_spec(c, "linux"@) == condition_spec(c, "linux:os"@),
{
    reveal_strlit("linux");
    reveal_strlit("linux:os");
    let a = "linux"@;
    let b = "linux:os"@;
    assert(forall|k: int| 0 <= k < a.len() ==> is_word(#[trigger] a[k]));
    assert(forall|k: int| 0 <= k < b.len() ==> is_word(#[trigger] b[k]));
    lemma_trim_noop(a);
    lemma_trim_noop(b);
    assert(!has_legacy_mark(a));
    assert(!has_legacy_mark(b));
    lemma_single_word(c, a, MAX_ALIAS_DEPTH as nat);
    lemma_single_word(c, b, MAX_ALIAS_DEPTH as nat);
    lemma_single_word(c, b, (MAX_ALIAS_DEPTH - 1) as nat);
    assert(first_index_of(a, ':') is None);
    assert(b[5] == ':');
    assert(first_index_of(b, ':') is Some);
    assert(builtin_alias(a) == Some(b));
    assert(alias_of(c, a) == Some(b));
}

/// The output of an item-level invocation keeps arm order: for any split of
/// its arms, everything emitted for the arms before the split precedes
/// everything emitted for the arms after it.
pub proof fn lemma_target_cfg_order(c: Config, ts: Seq<Tok>, i: int)
    requires
        arms_spec(ts, 0) is Ok,
        0 <= i <= arms_spec(ts, 0)->Ok_0.len(),
        target_spec(c, ts) is Ok,
    ensures
        ({
            let arms = arms_spec(ts, 0)->Ok_0;
            let front = target_from(c, arms.subrange(0, i));
            let back = target_from(c, arms.subrange(i, arms.len() as int));
            &&& front is Ok
            &&& back is Ok
            &&& target_spec(c, ts)->Ok_0 == front->Ok_0 + back->Ok_0
        }),
{
    let arms = arms_spec(ts, 0)->Ok_0;
    assert(arms.subrange(0, i) + arms.subrange(i, arms.len() as int) =~= arms);
    lemma_target_order(c, arms.subrange(0, i), arms.subrange(i, arms.len() as int));
}

/// The output of a function-scoped invocation keeps arm order: inside its
/// braces, everything emitted for the arms before any split precedes
/// everything emitted for the arms after it, the latter guarded against
/// the former.
pub proof fn lemma_match_cfg_order(c: Config, ts: Seq<Tok>, i: int)
    requires
        arms_spec(ts, 0) is Ok,
        0 <= i <= arms_spec(ts, 0)->Ok_0.len(),
        match_spec(c, ts) is Ok,
    ensures
        ({
            let arms = arms_spec(ts, 0)->Ok_0;
            let act = count_activate(arms) > 0;
            let front = match_from(c, arms.subrange(0, i), act, None);
            let back = match_from(
                c,
                arms.subrange(i, arms.len() as int),
                act,
                match_prev_after(c, arms.subrange(0, i), act, None),
            );
            &&& front is Ok
            &&& back is Ok
            &&& match_spec(c, ts)->Ok_0 == seq![OutView::Code(Tok::Open(Delimiter::Brace))]
                + (front->Ok_0 + back->Ok_0) + seq![OutView::Code(Tok::Close(Delimiter::Brace))]
        }),
{
    let arms = arms_spec(ts, 0)->Ok_0;
    let act = count_activate(arms) > 0;
    assert(arms.subrange(0, i) + arms.subrange(i, arms.len() as int) =~= arms);
    lemma_match_order(c, arms.subrange(0, i), arms.subrange(i, arms.len() as int), act, None);
}

/// An item-level invocation fails with `MixedSyntaxError` at the first arm
/// whose condition mixes the two syntaxes, whichever part comes first,
/// provided the arms before it expand and its modifier takes effect.
pub proof fn lemma_target_cfg_mixed(c: Config, ts: Seq<Tok>, i: int)
    requires
        arms_spec(ts, 0) is Ok,
        target_check(arms_spec(ts, 0)->Ok_0) is Ok,
        0 <= i < arms_spec(ts, 0)->Ok_0.len(),
        target_from(c, arms_spec(ts, 0)->Ok_0.subrange(0, i)) is Ok,
        effective_modifier(arms_spec(ts, 0)->Ok_0[i].modifier, c) is Ok,
        has_legacy_mark(arms_spec(ts, 0)->Ok_0[i].condition),
        has_simplified_op(arms_spec(ts, 0)->Ok_0[i].condition),
    ensures
        target_spec(c, ts) == Err::<Seq<OutView>, ErrorView>(ErrorView::MixedSyntaxError),
{
    let arms = arms_spec(ts, 0)->Ok_0;
    let back = arms.subrange(i, arms.len() as int);
    assert(arms.subrange(0, i) + back =~= arms);
    lemma_target_order(c, arms.subrange(0, i), back);
    lemma_mixed_syntax(c, arms[i].condition);
    assert(back[0] == arms[i]);
}

/// Arms that differ only in their condition, `linux` in one and `linux:os`
/// in the other, expand identically in both constructs, unless the alias is
/// overridden.
pub proof fn lemma_alias_round_trip_arm(c: Config, a: ArmView, b: ArmView, any_act: bool, prev: Option<Expr>)
    requires
        lookup_pairs(c.alias_overrides@, "linux"@) is None,
        a.condition == "linux"@,
        b.condition == "linux:os"@,
        a.modifier == b.modifier,
        a.content == b.content,
        a.braced == b.braced,
        a.is_wildcard == b.is_wildcard,
    ensures
        target_arm(c, a) == target_arm(c, b),
        match_arm(c, a, any_act, prev) == match_arm(c, b, any_act, prev),
{
    lemma_alias_round_trip(c);
    reveal_strlit("linux");
    reveal_strlit("linux:os");
    let x = "linux"@;
    let y = "linux:os"@;
    assert(forall|k: int| 0 <= k < x.len() ==> x[k] != 'd');
    assert(forall|k: int| 0 <= k < y.len() ==> y[k] != 'd');
    assert(!names_doc(x)) by {
        assert(forall|k: int| !#[trigger] doc_at(x, k));
    }
    assert(!names_doc(y)) by {
        assert(forall|k: int| !#[trigger] doc_at(y, k));
    }
}

} // verus!
