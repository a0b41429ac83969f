use vstd::prelude::*;

verus! {

/// Every way an expansion can fail. Failures are terminal for the invocation.
#[derive(Debug)]
pub enum NSCFGError {
    /// Two terms are juxtaposed with no `&` or `|` between them.
    MissingOperator,
    /// A term is missing (between two operators, after `!`, inside `()`).
    EmptyNode,
    /// A character outside the condition alphabet.
    InvalidCharacter(String),
    /// An alias with no override and no built-in entry.
    AliasNotFound(String),
    /// A predicate key with no override and no built-in entry.
    InvalidConfigurationPredicate(String),
    /// An arm whose condition is empty.
    EmptyArm,
    /// The wildcard arm `_` is not the last arm.
    WildcardArmNotLast,
    /// Two arms are not separated by `,`.
    ArmSeparatorMissing,
    /// The content separator `=>` is malformed.
    ContentSeparatorError,
    /// A function-scoped construct has no wildcard arm.
    WildcardArmMissing,
    /// An item-level construct holds a wildcard arm.
    WildcardArmOnTarget,
    /// The item-level construct is used inside a function.
    TargetInFunction,
    /// A legacy `#[cfg(..)]` condition is malformed.
    LegacySyntaxError,
    /// Legacy and simplified syntax are mixed in one arm.
    MixedSyntaxError,
    /// An arm has no content separator `=>`.
    ContentSeparatorMissing,
    /// A modifier is not the first character of its arm.
    ModifierNotFirst,
    /// The release-failure modifier is used outside a debug build.
    ModifierPanicRelease,
    /// More than one activation modifier in a function-scoped construct.
    MatchModifierMoreThanOneActivate,
    /// The wildcard arm of a function-scoped construct is deactivated.
    MatchDeactivatedWildArm,
}

/// Mathematical model of [`NSCFGError`]: the same kinds, with text as `Seq<char>`.
pub enum ErrorView {
    MissingOperator,
    EmptyNode,
    InvalidCharacter(Seq<char>),
    AliasNotFound(Seq<char>),
    InvalidConfigurationPredicate(Seq<char>),
    EmptyArm,
    WildcardArmNotLast,
    ArmSeparatorMissing,
    ContentSeparatorError,
    WildcardArmMissing,
    WildcardArmOnTarget,
    TargetInFunction,
    LegacySyntaxError,
    MixedSyntaxError,
    ContentSeparatorMissing,
    ModifierNotFirst,
    ModifierPanicRelease,
    MatchModifierMoreThanOneActivate,
    MatchDeactivatedWildArm,
}

impl View for NSCFGError {
    type V = ErrorView;

    open spec fn view(&self) -> ErrorView {
        match self {
            NSCFGError::MissingOperator => ErrorView::MissingOperator,
            NSCFGError::EmptyNode => ErrorView::EmptyNode,
            NSCFGError::InvalidCharacter(s) => ErrorView::InvalidCharacter(s@),
            NSCFGError::AliasNotFound(s) => ErrorView::AliasNotFound(s@),
            NSCFGError::InvalidConfigurationPredicate(s) => ErrorView::InvalidConfigurationPredicate(s@),
            NSCFGError::EmptyArm => ErrorView::EmptyArm,
            NSCFGError::WildcardArmNotLast => ErrorView::WildcardArmNotLast,
            NSCFGError::ArmSeparatorMissing => ErrorView::ArmSeparatorMissing,
            NSCFGError::ContentSeparatorError => ErrorView::ContentSeparatorError,
            NSCFGError::WildcardArmMissing => ErrorView::WildcardArmMissing,
            NSCFGError::WildcardArmOnTarget => ErrorView::WildcardArmOnTarget,
            NSCFGError::TargetInFunction => ErrorView::TargetInFunction,
            NSCFGError::LegacySyntaxError => ErrorView::LegacySyntaxError,
            NSCFGError::MixedSyntaxError => ErrorView::MixedSyntaxError,
            NSCFGError::ContentSeparatorMissing => ErrorView::ContentSeparatorMissing,
            NSCFGError::ModifierNotFirst => ErrorView::ModifierNotFirst,
            NSCFGError::ModifierPanicRelease => ErrorView::ModifierPanicRelease,
            NSCFGError::MatchModifierMoreThanOneActivate => ErrorView::MatchModifierMoreThanOneActivate,
            NSCFGError::MatchDeactivatedWildArm => ErrorView::MatchDeactivatedWildArm,
        }
    }
}

/// The quoted, escaped form in which `Debug` shows a text.
pub uninterp spec fn debug_quoted(s: Seq<char>) -> Seq<char>;

/// Relies on `<str as Debug>::fmt`: the text between double quotes, with
/// quotes, backslashes and control characters escaped.
#[verifier::external_body]
fn debug_quote(s: &str) -> (r: String)
    ensures
        r@ == debug_quoted(s@),
{
    format!("{:?}", s)
}

/// The message of an error, `tokens` being the text the failure was found
/// in and `quoted` that text as `Debug` shows it.
pub open spec fn message_spec(e: ErrorView, tokens: Seq<char>, quoted: Seq<char>) -> Seq<char> {
    match e {
        ErrorView::MissingOperator => "Operator `&` or '|' missing for `"@ + quoted
            + "`. Target must not contain space."@,
        ErrorView::EmptyNode => "Empty node generated from attributes. Are you missing a statement between separator?"@,
        ErrorView::InvalidCharacter(c) => "Invalid character `"@ + c + "` for `"@ + quoted + "`."@,
        ErrorView::AliasNotFound(a) => "Alias `"@ + a + "` has no match! Is it added in config.toml as `nscfg-"@ + a
            + "`?"@,
        ErrorView::InvalidConfigurationPredicate(p) => "Configuration predicate `"@ + p
            + "` has no match! Is it added in config.toml as `nscfg_predicate-"@ + p + "`?"@,
        ErrorView::EmptyArm => "Empty arm with no attributes detected!"@,
        ErrorView::WildcardArmNotLast => "Wildcard branch `_` must ALWAYS be the last branch."@,
        ErrorView::ArmSeparatorMissing => "Arm syntax incorrect. Are you missing a separator `,` between arms?"@,
        ErrorView::ContentSeparatorError => "Arm syntax incorrect. Is your arm separator `=>` syntax Ok?"@,
        ErrorView::WildcardArmMissing => "Ensure that all possible cases are being handled by adding a match arm with a `_` wildcard pattern."@,
        ErrorView::WildcardArmOnTarget => "target_cfg! macro cannot have a `_` wildcard pattern."@,
        ErrorView::TargetInFunction => "target_cfg! macro cannot be used inside a function. Use match_cfg! instead."@,
        ErrorView::LegacySyntaxError => "Legacy syntax error in `"@ + tokens + "`."@,
        ErrorView::MixedSyntaxError => "Legacy syntax and simplified syntax can't be mixed on same arm!"@,
        ErrorView::ContentSeparatorMissing => "Arm content separator `=>` missing!"@,
        ErrorView::ModifierNotFirst => "Arm modifiers `+`, `-` and `*` must be the first character of arm!"@,
        ErrorView::ModifierPanicRelease => "Arm modifier `*` fails release compilation by default! Set nscfg_release_modifier_behaviour to `ignore` to drop it."@,
        ErrorView::MatchModifierMoreThanOneActivate => "match_cfg! cannot have more than one `+` modifier!"@,
        ErrorView::MatchDeactivatedWildArm => "match_cfg! cannot deactivate wildcard arm with `-` modifier!"@,
    }
}

impl NSCFGError {
    /// Human-readable message naming the violated rule; lookup failures name
    /// the configuration key that would resolve them.
    pub fn message(&self, tokens: &str) -> (r: String)
        ensures
            r@ == message_spec(self@, tokens@, debug_quoted(tokens@)),
    {
        let quoted = debug_quote(tokens);
        self.message_quoted(tokens, quoted.as_str())
    }

    /// The message, given `tokens` and the `Debug` form `quoted` of them.
    pub fn message_quoted(&self, tokens: &str, quoted: &str) -> (r: String)
        ensures
            r@ == message_spec(self@, tokens@, quoted@),
    {
        match self {
            NSCFGError::MissingOperator => String::from_str("Operator `&` or '|' missing for `").concat(
                quoted,
            ).concat("`. Target must not contain space."),
            NSCFGError::EmptyNode => String::from_str(
                "Empty node generated from attributes. Are you missing a statement between separator?",
            ),
            NSCFGError::InvalidCharacter(c) => String::from_str("Invalid character `").concat(
                c.as_str(),
            ).concat("` for `").concat(quoted).concat("`."),
            NSCFGError::AliasNotFound(a) => String::from_str("Alias `").concat(a.as_str()).concat(
                "` has no match! Is it added in config.toml as `nscfg-",
            ).concat(a.as_str()).concat("`?"),
            NSCFGError::InvalidConfigurationPredicate(p) => String::from_str(
                "Configuration predicate `",
            ).concat(p.as_str()).concat(
                "` has no match! Is it added in config.toml as `nscfg_predicate-",
            ).concat(p.as_str()).concat("`?"),
            NSCFGError::EmptyArm => String::from_str("Empty arm with no attributes detected!"),
            NSCFGError::WildcardArmNotLast => String::from_str(
                "Wildcard branch `_` must ALWAYS be the last branch.",
            ),
            NSCFGError::ArmSeparatorMissing => String::from_str(
                "Arm syntax incorrect. Are you missing a separator `,` between arms?",
            ),
            NSCFGError::ContentSeparatorError => String::from_str(
                "Arm syntax incorrect. Is your arm separator `=>` syntax Ok?",
            ),
            NSCFGError::WildcardArmMissing => String::from_str(
                "Ensure that all possible cases are being handled by adding a match arm with a `_` wildcard pattern.",
            ),
            NSCFGError::WildcardArmOnTarget => String::from_str(
                "target_cfg! macro cannot have a `_` wildcard pattern.",
            ),
            NSCFGError::TargetInFunction => String::from_str(
                "target_cfg! macro cannot be used inside a function. Use match_cfg! instead.",
            ),
            NSCFGError::LegacySyntaxError => String::from_str("Legacy syntax error in `").concat(
                tokens,
            ).concat("`."),
            NSCFGError::MixedSyntaxError => String::from_str(
                "Legacy syntax and simplified syntax can't be mixed on same arm!",
            ),
            NSCFGError::ContentSeparatorMissing => String::from_str(
                "Arm content separator `=>` missing!",
            ),
            NSCFGError::ModifierNotFirst => String::from_str(
                "Arm modifiers `+`, `-` and `*` must be the first character of arm!",
            ),
            NSCFGError::ModifierPanicRelease => String::from_str(
                "Arm modifier `*` fails release compilation by default! Set nscfg_release_modifier_behaviour to `ignore` to drop it.",
            ),
            NSCFGError::MatchModifierMoreThanOneActivate => String::from_str(
                "match_cfg! cannot have more than one `+` modifier!",
            ),
            NSCFGError::MatchDeactivatedWildArm => String::from_str(
                "match_cfg! cannot deactivate wildcard arm with `-` modifier!",
            ),
        }
    }
}

} // verus!
