use nscfg::arm::{Delimiter, Tok, extract_arms, Modifier};
use nscfg::config::{Config, ReleaseModifierBehaviour};
use nscfg::emit::{match_cfg, meta_cfg, split_items, target_cfg, Out};
use nscfg::errors::NSCFGError;

fn config() -> Config {
    Config {
        alias_overrides: Vec::new(),
        predicate_overrides: Vec::new(),
        autodoc: true,
        docsrs: false,
        release_behaviour: ReleaseModifierBehaviour::Panic,
        debug_build: true,
    }
}

fn is_punct(c: char) -> bool {
    !c.is_alphanumeric() && c != '_' && !c.is_whitespace() && !"()[]{}\"".contains(c)
}

/// Splits source text into tokens the way a compiler front end would.
fn lex(src: &str) -> Vec<Tok> {
    let chars: Vec<char> = src.chars().collect();
    let mut out = Vec::new();
    let mut i = 0;
    while i < chars.len() {
        let c = chars[i];
        if c.is_whitespace() {
            i += 1;
        } else if c.is_alphabetic() || c == '_' {
            let start = i;
            while i < chars.len() && (chars[i].is_alphanumeric() || chars[i] == '_') {
                i += 1;
            }
            out.push(Tok::Ident(chars[start..i].iter().collect()));
        } else if c.is_ascii_digit() {
            let start = i;
            while i < chars.len() && chars[i].is_alphanumeric() {
                i += 1;
            }
            out.push(Tok::Literal(chars[start..i].iter().collect()));
        } else if c == '"' {
            let start = i;
            i += 1;
            while chars[i] != '"' {
                i += 1;
            }
            i += 1;
            out.push(Tok::Literal(chars[start..i].iter().collect()));
        } else if "([{".contains(c) {
            out.push(Tok::Open(match c {
                '(' => Delimiter::Parenthesis,
                '[' => Delimiter::Bracket,
                _ => Delimiter::Brace,
            }));
            i += 1;
        } else if ")]}".contains(c) {
            out.push(Tok::Close(match c {
                ')' => Delimiter::Parenthesis,
                ']' => Delimiter::Bracket,
                _ => Delimiter::Brace,
            }));
            i += 1;
        } else {
            let joint = i + 1 < chars.len() && is_punct(chars[i + 1]);
            out.push(Tok::Punct(c, joint));
            i += 1;
        }
    }
    out
}

fn tok_text(t: &Tok) -> String {
    match t {
        Tok::Ident(s) | Tok::Literal(s) => s.clone(),
        Tok::Punct(c, _) => c.to_string(),
        Tok::Open(Delimiter::Parenthesis) => "(".to_string(),
        Tok::Open(Delimiter::Bracket) => "[".to_string(),
        Tok::Open(Delimiter::Brace) => "{".to_string(),
        Tok::Close(Delimiter::Parenthesis) => ")".to_string(),
        Tok::Close(Delimiter::Bracket) => "]".to_string(),
        Tok::Close(Delimiter::Brace) => "}".to_string(),
        Tok::Open(Delimiter::Invisible) | Tok::Close(Delimiter::Invisible) => String::new(),
    }
}

fn show(out: &[Out]) -> String {
    out.iter()
        .map(|o| match o {
            Out::Attr(s) => s.clone(),
            Out::Code(t) => tok_text(t),
        })
        .collect::<Vec<_>>()
        .join(" ")
}

#[test]
fn missing_operator_between_labels() {
    let r = target_cfg(&config(), &lex("linux windows => { fn foo() { panic!(\"x\"); } },"));
    assert!(matches!(r, Err(NSCFGError::MissingOperator)));
}

#[test]
fn or_of_two_aliases() {
    let r = target_cfg(&config(), &lex("linux | windows => { fn foo1() -> String { String::from(\"a\") } },")).unwrap();
    let text = show(&r);
    assert!(text.starts_with("#[cfg(any(doc, any(target_os = \"linux\", windows)))] fn foo1"));
}

#[test]
fn complementary_item_arms_both_kept() {
    let r = target_cfg(
        &config(),
        &lex("x86_64:ar => { pub fn foo1() {} }, !x86_64:ar => { pub fn foo1() {} },"),
    )
    .unwrap();
    assert_eq!(
        show(&r),
        "#[cfg(any(doc, target_arch = \"x86_64\"))] pub fn foo1 ( ) { } \
         #[cfg(any(doc, not(target_arch = \"x86_64\")))] pub fn foo1 ( ) { }"
    );
}

#[test]
fn legacy_arm_then_wildcard() {
    let r = match_cfg(&config(), &lex("#[cfg(unix)] => { 1 }, _ => { 2 }")).unwrap();
    assert_eq!(show(&r), "{ #[cfg(unix)] { 1 } #[cfg(not(unix))] { 2 } }");
}

#[test]
fn legacy_mixed_with_simplified() {
    let r = target_cfg(&config(), &lex("linux & #[cfg(unix)] => { pub fn foo() {} }"));
    assert!(matches!(r, Err(NSCFGError::MixedSyntaxError)));
    let r = target_cfg(&config(), &lex("#[cfg(unix)] | linux => { pub fn foo() {} }"));
    assert!(matches!(r, Err(NSCFGError::MixedSyntaxError)));
}

#[test]
fn attribute_form_is_one_arm() {
    let item = lex("pub fn desktop_fn() { println!(\"done\") }");
    let a = meta_cfg(&config(), &lex("desktop"), &item).unwrap();
    let b = target_cfg(&config(), &lex("desktop => { pub fn desktop_fn() { println!(\"done\") } }")).unwrap();
    assert_eq!(show(&a), show(&b));
    assert!(show(&a).starts_with(
        "#[cfg(any(doc, any(any(target_os = \"linux\", windows), target_os = \"macos\")))]"
    ));
}

#[test]
fn arm_order_is_kept() {
    let r = target_cfg(&config(), &lex("mobile => { struct B; }, linux => { struct A; }")).unwrap();
    let text = show(&r);
    let b = text.find("struct B").unwrap();
    let a = text.find("struct A").unwrap();
    assert!(b < a);
    let r = match_cfg(&config(), &lex("windows => 1, linux => 2, _ => 3")).unwrap();
    assert_eq!(
        show(&r),
        "{ #[cfg(windows)] { 1 } \
         #[cfg(all(target_os = \"linux\", not(windows)))] { 2 } \
         #[cfg(not(any(windows, target_os = \"linux\")))] { 3 } }"
    );
}

#[test]
fn wildcard_on_item_construct() {
    let r = target_cfg(&config(), &lex("linux => { struct A; }, _ => { struct B; }"));
    assert!(matches!(r, Err(NSCFGError::WildcardArmOnTarget)));
    let r = target_cfg(&config(), &lex("linux => { struct A; }"));
    assert!(r.is_ok());
}

#[test]
fn wildcard_missing_or_misplaced() {
    let r = match_cfg(&config(), &lex("linux => 1, windows => 2"));
    assert!(matches!(r, Err(NSCFGError::WildcardArmMissing)));
    let r = match_cfg(&config(), &lex("_ => 1, windows => 2"));
    assert!(matches!(r, Err(NSCFGError::WildcardArmNotLast)));
    let r = match_cfg(&config(), &lex(""));
    assert!(matches!(r, Err(NSCFGError::WildcardArmMissing)));
}

#[test]
fn second_activation_fails() {
    let r = match_cfg(&config(), &lex("+ foo1:os => 1, + foo2:os => 2, _ => 3"));
    assert!(matches!(r, Err(NSCFGError::MatchModifierMoreThanOneActivate)));
}

#[test]
fn activation_selects_arm() {
    let r = match_cfg(&config(), &lex("+ foo1:os => 1, foo2:os => 2, _ => 3")).unwrap();
    assert_eq!(
        show(&r),
        "{ #[cfg(all())] { 1 } #[cfg(all(any(), not(all())))] { 2 } \
         #[cfg(not(any(all(), any())))] { 3 } }"
    );
}

#[test]
fn deactivated_wildcard_fails() {
    let r = match_cfg(&config(), &lex("foo1:os => 1, - _ => 2"));
    assert!(matches!(r, Err(NSCFGError::MatchDeactivatedWildArm)));
}

#[test]
fn item_modifiers_force_predicate() {
    let r = target_cfg(&config(), &lex("+ #[cfg(windows)] => { fn a() {} }, - linux => { fn b() {} }")).unwrap();
    assert_eq!(show(&r), "#[cfg(all())] fn a ( ) { } #[cfg(any())] fn b ( ) { }");
}

#[test]
fn release_modifier() {
    let mut c = config();
    c.debug_build = false;
    let r = target_cfg(&c, &lex("* linux => { fn a() {} }"));
    assert!(matches!(r, Err(NSCFGError::ModifierPanicRelease)));
    c.release_behaviour = ReleaseModifierBehaviour::Ignore;
    let r = target_cfg(&c, &lex("* linux => { fn a() {} }")).unwrap();
    assert_eq!(show(&r), "#[cfg(any(doc, target_os = \"linux\"))] fn a ( ) { }");
    let r = target_cfg(&config(), &lex("* linux => { fn a() {} }")).unwrap();
    assert_eq!(show(&r), "#[cfg(any(doc, target_os = \"linux\"))] fn a ( ) { }");
}

#[test]
fn modifier_not_first() {
    let r = target_cfg(&config(), &lex("linux & + windows => { fn a() {} }"));
    assert!(matches!(r, Err(NSCFGError::ModifierNotFirst)));
}

#[test]
fn separators() {
    let r = target_cfg(&config(), &lex("linux {}, #[cfg(unix)] => { fn foo() {} }"));
    assert!(matches!(r, Err(NSCFGError::ContentSeparatorMissing)));
    let r = target_cfg(&config(), &lex("linux = {}"));
    assert!(matches!(r, Err(NSCFGError::ContentSeparatorError)));
    let r = target_cfg(&config(), &lex("linux => { fn a() {} } windows => { fn b() {} }"));
    assert!(matches!(r, Err(NSCFGError::ArmSeparatorMissing)));
    let r = target_cfg(&config(), &lex("=> { fn a() {} }"));
    assert!(matches!(r, Err(NSCFGError::EmptyArm)));
}

#[test]
fn trailing_comma_optional() {
    let a = target_cfg(&config(), &lex("x86_64:ar => { fn a() {} }, x86:ar => { fn b() {} }")).unwrap();
    let b = target_cfg(&config(), &lex("x86_64:ar => { fn a() {} }, x86:ar => { fn b() {} },")).unwrap();
    assert_eq!(show(&a), show(&b));
}

#[test]
fn doc_wrapping_and_tags() {
    let mut c = config();
    let r = target_cfg(&c, &lex("!doc & linux => { fn a() {} }")).unwrap();
    assert_eq!(show(&r), "#[cfg(all(not(doc), target_os = \"linux\"))] fn a ( ) { }");
    c.autodoc = false;
    c.docsrs = true;
    let r = target_cfg(&c, &lex("linux => { fn a() {} }")).unwrap();
    assert_eq!(
        show(&r),
        "#[cfg(target_os = \"linux\")] #[cfg_attr(docsrs, doc(cfg(target_os = \"linux\")))] fn a ( ) { }"
    );
}

#[test]
fn items_are_replicated() {
    let r = target_cfg(&config(), &lex("unix => { pub mod m; pub use m::{A, B}; fn f() {} }")).unwrap();
    assert_eq!(
        show(&r),
        "#[cfg(any(doc, unix))] pub mod m ; #[cfg(any(doc, unix))] pub use m : : { A , B } ; \
         #[cfg(any(doc, unix))] fn f ( ) { }"
    );
}

#[test]
fn split_items_partitions_block() {
    let items = split_items(&lex("const X: T = T { a: 1 }; struct S { x: u8 } compile_error!(\"no\")"));
    assert_eq!(items.len(), 3);
    assert_eq!(items[0].len(), 12);
    assert_eq!(items[1].len(), 7);
}

#[test]
fn unbraced_content() {
    let r = target_cfg(&config(), &lex("mobile => compile_error!(\"Mobile not supported\"),")).unwrap();
    assert_eq!(
        show(&r),
        "#[cfg(any(doc, any(target_os = \"android\", target_os = \"ios\")))] compile_error ! ( \"Mobile not supported\" )"
    );
}

#[test]
fn arms_carry_modifiers() {
    let arms = extract_arms(&lex("+ linux => 1, - _ => 2")).unwrap();
    assert_eq!(arms.len(), 2);
    assert_eq!(arms[0].modifier, Modifier::Activate);
    assert!(!arms[0].is_wildcard);
    assert_eq!(arms[1].modifier, Modifier::Deactivate);
    assert!(arms[1].is_wildcard);
}

#[test]
fn legacy_doc_arm_is_not_wrapped() {
    let r = target_cfg(&config(), &lex("#[cfg(not(doc))] => { fn a() {} }")).unwrap();
    assert_eq!(show(&r), "#[cfg(not(doc))] fn a ( ) { }");
}

#[test]
fn alias_to_doc_is_wrapped() {
    let mut c = config();
    c.alias_overrides.push(("nodoc".to_string(), "!doc:_".to_string()));
    let r = target_cfg(&c, &lex("nodoc => { fn a() {} }")).unwrap();
    assert_eq!(show(&r), "#[cfg(any(doc, not(doc)))] fn a ( ) { }");
}

#[test]
fn glyphs_inside_legacy_literals() {
    let r = target_cfg(&config(), &lex("#[cfg(feature = \"c++\")] => { fn a() {} }")).unwrap();
    assert_eq!(show(&r), "#[cfg(any(doc, feature=\"c++\"))] fn a ( ) { }");
    let r = target_cfg(&config(), &lex("- #[cfg(feature = \"-x*\")] => { fn a() {} }")).unwrap();
    assert_eq!(show(&r), "#[cfg(any())] fn a ( ) { }");
}
