use nscfg::config::{
    fill_template, get_nscfg_alias, get_nscfg_predicate, get_release_modifier_behaviour,
    if_docsrs_enabled, is_nscfg_autodoc, Config, ReleaseModifierBehaviour,
};
use nscfg::errors::NSCFGError;
use nscfg::syntax::{names_doc_text, parse_condition, Node};
use nscfg::text::{contains, trim};

fn config() -> Config {
    Config {
        alias_overrides: Vec::new(),
        predicate_overrides: Vec::new(),
        autodoc: true,
        docsrs: false,
        release_behaviour: ReleaseModifierBehaviour::Panic,
        debug_build: true,
    }
}

fn render(s: &str) -> String {
    parse_condition(&config(), s).unwrap().render()
}

#[test]
fn alias_round_trip() {
    assert_eq!(render("linux"), render("linux:os"));
    assert_eq!(render("linux"), "target_os = \"linux\"");
}

#[test]
fn or_tree_shape() {
    match parse_condition(&config(), "linux | windows").unwrap() {
        Node::Or(l, r) => {
            assert!(matches!(*l, Node::Leaf(ref p) if p == "target_os = \"linux\""));
            assert!(matches!(*r, Node::Leaf(ref p) if p == "windows"));
        }
        other => panic!("unexpected {:?}", other),
    }
}

#[test]
fn left_to_right_without_precedence() {
    assert_eq!(render("unix & wasm | test"), "any(all(unix, wasm), test)");
    assert_eq!(render("unix & (wasm | test)"), "all(unix, any(wasm, test))");
    assert_eq!(render("!!debug"), "not(not(debug_assertions))");
    assert_eq!(render("sse4.1:tf & 64:pw"), "all(target_feature = \"sse4.1\", target_pointer_width = \"64\")");
}

#[test]
fn composite_aliases() {
    assert_eq!(
        render("desktop"),
        "any(any(target_os = \"linux\", windows), target_os = \"macos\")"
    );
    assert_eq!(render("mobile"), "any(target_os = \"android\", target_os = \"ios\")");
}

#[test]
fn condition_errors() {
    let c = config();
    assert!(matches!(parse_condition(&c, "linux &"), Err(NSCFGError::EmptyNode)));
    assert!(matches!(parse_condition(&c, "()"), Err(NSCFGError::EmptyNode)));
    assert!(matches!(parse_condition(&c, "   "), Err(NSCFGError::EmptyNode)));
    assert!(matches!(parse_condition(&c, "linux windows"), Err(NSCFGError::MissingOperator)));
    assert!(matches!(parse_condition(&c, "(linux"), Err(NSCFGError::InvalidCharacter(ref s)) if s == "("));
    assert!(matches!(parse_condition(&c, "linux)"), Err(NSCFGError::InvalidCharacter(ref s)) if s == ")"));
    assert!(matches!(parse_condition(&c, "linux $"), Err(NSCFGError::InvalidCharacter(ref s)) if s == "$"));
    assert!(matches!(parse_condition(&c, "plan9"), Err(NSCFGError::AliasNotFound(ref s)) if s == "plan9"));
    assert!(
        matches!(parse_condition(&c, "x:zz"), Err(NSCFGError::InvalidConfigurationPredicate(ref s)) if s == "zz")
    );
    assert!(matches!(parse_condition(&c, "#[foo(unix)]"), Err(NSCFGError::LegacySyntaxError)));
    assert!(matches!(parse_condition(&c, "#[cfg(unix)] & linux"), Err(NSCFGError::MixedSyntaxError)));
}

#[test]
fn legacy_literal() {
    match parse_condition(&config(), " #[cfg(any(unix, windows))] ").unwrap() {
        Node::LegacyLiteral(x) => assert_eq!(x, "any(unix, windows)"),
        other => panic!("unexpected {:?}", other),
    }
}

#[test]
fn cyclic_override_stops() {
    let mut c = config();
    c.alias_overrides.push(("loop".to_string(), "loop".to_string()));
    assert!(matches!(parse_condition(&c, "loop"), Err(NSCFGError::AliasNotFound(ref s)) if s == "loop"));
}

#[test]
fn overrides_come_first() {
    let mut c = config();
    c.alias_overrides.push(("linux".to_string(), "gnu:ev".to_string()));
    c.predicate_overrides.push(("cp".to_string(), "custom(\"{}\", {})".to_string()));
    assert_eq!(get_nscfg_alias(&c, "linux").unwrap(), "gnu:ev");
    assert_eq!(get_nscfg_predicate(&c, " a : cp ").unwrap(), "custom(\"a\", a)");
    assert_eq!(parse_condition(&c, "linux").unwrap().render(), "target_env = \"gnu\"");
}

#[test]
fn builtin_lookups() {
    let c = config();
    assert_eq!(get_nscfg_alias(&c, "debug").unwrap(), "debug_assertions:_");
    assert!(matches!(get_nscfg_alias(&c, "nope"), Err(NSCFGError::AliasNotFound(ref s)) if s == "nope"));
    assert_eq!(get_nscfg_predicate(&c, "little:ed").unwrap(), "target_endian = \"little\"");
    assert_eq!(get_nscfg_predicate(&c, "abort:pn").unwrap(), "panic = \"abort\"");
    assert!(matches!(get_nscfg_predicate(&c, "abort"), Err(NSCFGError::InvalidConfigurationPredicate(ref s)) if s == "abort"));
}

#[test]
fn template_filling() {
    assert_eq!(fill_template("{}-{}", "x"), "x-x");
    assert_eq!(fill_template("{", "x"), "{");
    assert_eq!(fill_template("", "x"), "");
}

#[test]
fn settings() {
    assert!(is_nscfg_autodoc(None));
    assert!(is_nscfg_autodoc(Some("true")));
    assert!(is_nscfg_autodoc(Some("maybe")));
    assert!(!is_nscfg_autodoc(Some("false")));
    assert_eq!(get_release_modifier_behaviour(None), ReleaseModifierBehaviour::Panic);
    assert_eq!(get_release_modifier_behaviour(Some("ignore")), ReleaseModifierBehaviour::Ignore);
    assert_eq!(get_release_modifier_behaviour(Some("panic")), ReleaseModifierBehaviour::Panic);
    assert!(if_docsrs_enabled(Some("[package]\n[package.metadata.docs.rs]\nall-features = true")));
    assert!(!if_docsrs_enabled(Some("[package]")));
    assert!(!if_docsrs_enabled(None));
}

#[test]
fn text_helpers() {
    assert_eq!(trim("  a b \n"), "a b");
    assert_eq!(trim(""), "");
    assert!(contains("abc", "bc"));
    assert!(!contains("abc", "cb"));
}

#[test]
fn messages() {
    assert_eq!(
        NSCFGError::AliasNotFound("foo".to_string()).message(""),
        "Alias `foo` has no match! Is it added in config.toml as `nscfg-foo`?"
    );
    assert_eq!(
        NSCFGError::InvalidCharacter("$".to_string()).message("linux$"),
        "Invalid character `$` for `\"linux$\"`."
    );
    assert_eq!(
        NSCFGError::MissingOperator.message("linux windows"),
        "Operator `&` or '|' missing for `\"linux windows\"`. Target must not contain space."
    );
    assert_eq!(
        NSCFGError::InvalidConfigurationPredicate("zz".to_string()).message(""),
        "Configuration predicate `zz` has no match! Is it added in config.toml as `nscfg_predicate-zz`?"
    );
    assert_eq!(NSCFGError::EmptyArm.message(""), "Empty arm with no attributes detected!");
}

#[test]
fn doc_flag_is_computed_once() {
    let mut cache = nscfg::config::DocFlagCache::new();
    assert_eq!(cache.get(), None);
    assert!(cache.get_or_compute(Some("[package.metadata.docs.rs]")));
    assert!(cache.get_or_compute(None));
    assert_eq!(cache.get(), Some(true));
    cache.reset();
    assert!(!cache.get_or_compute(None));
}

#[test]
fn message_escapes_tokens() {
    assert_eq!(
        NSCFGError::MissingOperator.message("a \"b\""),
        "Operator `&` or '|' missing for `\"a \\\"b\\\"\"`. Target must not contain space."
    );
    assert_eq!(
        NSCFGError::LegacySyntaxError.message("#[foo(unix)]"),
        "Legacy syntax error in `#[foo(unix)]`."
    );
    assert_eq!(
        NSCFGError::MissingOperator.message_quoted("x", "<x>"),
        "Operator `&` or '|' missing for `<x>`. Target must not contain space."
    );
}

#[test]
fn unicode_whitespace_is_trimmed() {
    let c = config();
    assert_eq!(get_nscfg_predicate(&c, " a\u{0C}:os").unwrap(), "target_os = \"a\"");
    assert_eq!(trim("\u{3000}x\u{A0}"), "x");
    assert_eq!(render("linux\u{2003}|\u{2003}unix"), "any(target_os = \"linux\", unix)");
}

#[test]
fn operators_inside_legacy_literals() {
    match parse_condition(&config(), "#[cfg(feature = \"a|b!\")]").unwrap() {
        Node::LegacyLiteral(x) => assert_eq!(x, "feature = \"a|b!\""),
        other => panic!("unexpected {:?}", other),
    }
    assert!(matches!(
        parse_condition(&config(), "#[cfg(feature = \"a\\\"|\")] | unix"),
        Err(NSCFGError::MixedSyntaxError)
    ));
}

#[test]
fn literal_doc_check() {
    assert!(names_doc_text("!doc & linux"));
    assert!(names_doc_text("#[cfg(not(doc))]"));
    assert!(names_doc_text("doc"));
    assert!(!names_doc_text("docs | mydoc"));
    assert!(!names_doc_text("nodoc"));
}
