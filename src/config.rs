//! Alias and predicate tables, and the configuration that overrides them.
use vstd::prelude::*;
use crate::errors::{NSCFGError, ErrorView};
use crate::text::{trim, trim_spec, str_eq, slice, find_char, first_index_of, push_char, contains, contains_spec};

verus! {

/// What the release-failure modifier does outside a debug build.
#[derive(Clone, Copy, Debug, PartialEq, Eq, Structural)]
pub enum ReleaseModifierBehaviour {
    /// The expansion fails.
    Panic,
    /// The modifier is dropped.
    Ignore,
}

/// Everything the engine learns from its environment, as plain values.
pub struct Config {
    /// `(label, expansion)` pairs consulted before the built-in aliases.
    pub alias_overrides: Vec<(String, String)>,
    /// `(key, template)` pairs consulted before the built-in predicates.
    pub predicate_overrides: Vec<(String, String)>,
    /// Whether item-level arms are wrapped so that documentation builds keep them.
    pub autodoc: bool,
    /// Whether a documentation-tag attribute is emitted beside each predicate.
    pub docsrs: bool,
    /// What the release-failure modifier does outside a debug build.
    pub release_behaviour: ReleaseModifierBehaviour,
    /// Whether the expansion happens in a debug build.
    pub debug_build: bool,
}

/// The value that the first pair with key `key` holds.
pub open spec fn lookup_pairs(pairs: Seq<(String, String)>, key: Seq<char>) -> Option<Seq<char>>
    decreases pairs.len(),
{
    if pairs.len() == 0 {
        None
    } else if pairs[0].0@ == key {
        Some(pairs[0].1@)
    } else {
        lookup_pairs(pairs.drop_first(), key)
    }
}

fn lookup(pairs: &Vec<(String, String)>, key: &str) -> (r: Option<String>)
    ensures
        match r {
            Some(v) => lookup_pairs(pairs@, key@) == Some(v@),
            None => lookup_pairs(pairs@, key@) is None,
        },
{
    let mut i: usize = 0;
    assert(pairs@.subrange(0, pairs@.len() as int) =~= pairs@);
    while i < pairs.len()
        invariant
            i <= pairs@.len(),
            lookup_pairs(pairs@, key@) == lookup_pairs(
                pairs@.subrange(i as int, pairs@.len() as int),
                key@,
            ),
        decreases pairs@.len() - i,
    {
        let ghost rest = pairs@.subrange(i as int, pairs@.len() as int);
        assert(rest.drop_first() =~= pairs@.subrange(i + 1, pairs@.len() as int));
        if str_eq(pairs[i].0.as_str(), key) {
            return Some(pairs[i].1.clone());
        }
        i = i + 1;
    }
    None
}

/// The built-in aliases and their expansions.
pub open spec fn builtin_alias(label: Seq<char>) -> Option<Seq<char>> {
    if label == "linux"@ {
        Some("linux:os"@)
    } else if label == "unix"@ {
        Some("unix:_"@)
    } else if label == "windows"@ {
        Some("windows:_"@)
    } else if label == "macos"@ {
        Some("macos:os"@)
    } else if label == "android"@ {
        Some("android:os"@)
    } else if label == "ios"@ {
        Some("ios:os"@)
    } else if label == "wasm"@ {
        Some("wasm:_"@)
    } else if label == "doc"@ {
        Some("doc:_"@)
    } else if label == "test"@ {
        Some("test:_"@)
    } else if label == "debug"@ {
        Some("debug_assertions:_"@)
    } else if label == "desktop"@ {
        Some("linux:os | windows:_ | macos:os"@)
    } else if label == "mobile"@ {
        Some("android:os | ios:os"@)
    } else {
        None
    }
}

fn builtin_alias_exec(label: &str) -> (r: Option<&'static str>)
    ensures
        match r {
            Some(v) => builtin_alias(label@) == Some(v@),
            None => builtin_alias(label@) is None,
        },
{
    if str_eq(label, "linux") {
        Some("linux:os")
    } else if str_eq(label, "unix") {
        Some("unix:_")
    } else if str_eq(label, "windows") {
        Some("windows:_")
    } else if str_eq(label, "macos") {
        Some("macos:os")
    } else if str_eq(label, "android") {
        Some("android:os")
    } else if str_eq(label, "ios") {
        Some("ios:os")
    } else if str_eq(label, "wasm") {
        Some("wasm:_")
    } else if str_eq(label, "doc") {
        Some("doc:_")
    } else if str_eq(label, "test") {
        Some("test:_")
    } else if str_eq(label, "debug") {
        Some("debug_assertions:_")
    } else if str_eq(label, "desktop") {
        Some("linux:os | windows:_ | macos:os")
    } else if str_eq(label, "mobile") {
        Some("android:os | ios:os")
    } else {
        None
    }
}

/// The built-in predicate templates; `{}` stands for the label.
pub open spec fn builtin_predicate(key: Seq<char>) -> Option<Seq<char>> {
    if key == "ar"@ {
        Some("target_arch = \"{}\""@)
    } else if key == "tf"@ {
        Some("target_feature = \"{}\""@)
    } else if key == "os"@ {
        Some("target_os = \"{}\""@)
    } else if key == "fm"@ {
        Some("target_family = \"{}\""@)
    } else if key == "ev"@ {
        Some("target_env = \"{}\""@)
    } else if key == "ed"@ {
        Some("target_endian = \"{}\""@)
    } else if key == "pw"@ {
        Some("target_pointer_width = \"{}\""@)
    } else if key == "vn"@ {
        Some("target_vendor = \"{}\""@)
    } else if key == "at"@ {
        Some("target_has_atomic = \"{}\""@)
    } else if key == "pn"@ {
        Some("panic = \"{}\""@)
    } else if key == "ft"@ {
        Some("feature = \"{}\""@)
    } else if key == "_"@ {
        Some("{}"@)
    } else {
        None
    }
}

fn builtin_predicate_exec(key: &str) -> (r: Option<&'static str>)
    ensures
        match r {
            Some(v) => builtin_predicate(key@) == Some(v@),
            None => builtin_predicate(key@) is None,
        },
{
    if str_eq(key, "ar") {
        Some("target_arch = \"{}\"")
    } else if str_eq(key, "tf") {
        Some("target_feature = \"{}\"")
    } else if str_eq(key, "os") {
        Some("target_os = \"{}\"")
    } else if str_eq(key, "fm") {
        Some("target_family = \"{}\"")
    } else if str_eq(key, "ev") {
        Some("target_env = \"{}\"")
    } else if str_eq(key, "ed") {
        Some("target_endian = \"{}\"")
    } else if str_eq(key, "pw") {
        Some("target_pointer_width = \"{}\"")
    } else if str_eq(key, "vn") {
        Some("target_vendor = \"{}\"")
    } else if str_eq(key, "at") {
        Some("target_has_atomic = \"{}\"")
    } else if str_eq(key, "pn") {
        Some("panic = \"{}\"")
    } else if str_eq(key, "ft") {
        Some("feature = \"{}\"")
    } else if str_eq(key, "_") {
        Some("{}")
    } else {
        None
    }
}

/// The expansion of alias `label`: override first, then built-in.
pub open spec fn alias_of(config: Config, label: Seq<char>) -> Option<Seq<char>> {
    match lookup_pairs(config.alias_overrides@, label) {
        Some(v) => Some(v),
        None => builtin_alias(label),
    }
}

/// The template of predicate key `key`: override first, then built-in.
pub open spec fn template_of(config: Config, key: Seq<char>) -> Option<Seq<char>> {
    match lookup_pairs(config.predicate_overrides@, key) {
        Some(v) => Some(v),
        None => builtin_predicate(key),
    }
}

/// `t` with every `{}` replaced by `label`, left to right.
pub open spec fn fill(t: Seq<char>, label: Seq<char>) -> Seq<char>
    decreases t.len(),
{
    if t.len() == 0 {
        t
    } else if t.len() >= 2 && t[0] == '{' && t[1] == '}' {
        label + fill(t.subrange(2, t.len() as int), label)
    } else {
        seq![t[0]] + fill(t.drop_first(), label)
    }
}

/// Replaces every placeholder `{}` of `template` by `label`.
pub fn fill_template(template: &str, label: &str) -> (r: String)
    ensures
        r@ == fill(template@, label@),
{
    let n = template.unicode_len();
    let mut r = String::new();
    let mut i: usize = 0;
    assert(template@.subrange(0, n as int) =~= template@);
    while i < n
        invariant
            n == template@.len(),
            i <= n,
            r@ + fill(template@.subrange(i as int, n as int), label@) == fill(template@, label@),
        decreases n - i,
    {
        let ghost rest = template@.subrange(i as int, n as int);
        let c = template.get_char(i);
        if c == '{' && i + 1 < n && template.get_char(i + 1) == '}' {
            assert(rest.subrange(2, rest.len() as int) =~= template@.subrange(i + 2, n as int));
            r = r.concat(label);
            assert(r@ + fill(template@.subrange(i + 2, n as int), label@) =~= fill(template@, label@));
            i = i + 2;
        } else {
            assert(rest.drop_first() =~= template@.subrange(i + 1, n as int));
            push_char(&mut r, c);
            assert(r@ + fill(template@.subrange(i + 1, n as int), label@) =~= fill(template@, label@));
            i = i + 1;
        }
    }
    assert(r@ + fill(template@.subrange(n as int, n as int), label@) =~= r@);
    r
}

/// What a `label:key` reference resolves to: the template of `key` with
/// `label` in its placeholder, both trimmed; the error names the key.
pub open spec fn predicate_spec(config: Config, tokens: Seq<char>) -> Result<Seq<char>, ErrorView> {
    match first_index_of(tokens, ':') {
        Some(p) => {
            let label = trim_spec(tokens.subrange(0, p));
            let key = trim_spec(tokens.subrange(p + 1, tokens.len() as int));
            match template_of(config, key) {
                Some(t) => Ok(fill(t, label)),
                None => Err(ErrorView::InvalidConfigurationPredicate(key)),
            }
        },
        None => Err(ErrorView::InvalidConfigurationPredicate(tokens)),
    }
}

/// Resolves a `label:key` reference into a literal predicate.
pub fn get_nscfg_predicate(config: &Config, tokens: &str) -> (r: Result<String, NSCFGError>)
    ensures
        match (r, predicate_spec(*config, tokens@)) {
            (Ok(v), Ok(w)) => v@ == w,
            (Err(e), Err(f)) => e@ == f,
            _ => false,
        },
{
    match find_char(tokens, ':') {
        Some(p) => {
            let n = tokens.unicode_len();
            let label = trim(slice(tokens, 0, p).as_str());
            let key = trim(slice(tokens, p + 1, n).as_str());
            let template = match lookup(&config.predicate_overrides, key.as_str()) {
                Some(t) => t,
                None => match builtin_predicate_exec(key.as_str()) {
                    Some(t) => String::from_str(t),
                    None => {
                        return Err(NSCFGError::InvalidConfigurationPredicate(key));
                    },
                },
            };
            Ok(fill_template(template.as_str(), label.as_str()))
        },
        None => Err(NSCFGError::InvalidConfigurationPredicate(String::from_str(tokens))),
    }
}

/// Resolves an alias into its expansion, an unparsed condition.
pub fn get_nscfg_alias(config: &Config, label: &str) -> (r: Result<String, NSCFGError>)
    ensures
        match (r, alias_of(*config, label@)) {
            (Ok(v), Some(w)) => v@ == w,
            (Err(e), None) => e@ == ErrorView::AliasNotFound(label@),
            _ => false,
        },
{
    match lookup(&config.alias_overrides, label) {
        Some(a) => Ok(a),
        None => match builtin_alias_exec(label) {
            Some(a) => Ok(String::from_str(a)),
            None => Err(NSCFGError::AliasNotFound(String::from_str(label))),
        },
    }
}

/// Reads the autodocumentation setting: `"false"` turns it off; anything
/// else, or no value, leaves it on.
pub fn is_nscfg_autodoc(value: Option<&str>) -> (r: bool)
    ensures
        r == !(value matches Some(v) && v@ == "false"@),
{
    match value {
        Some(v) => !str_eq(v, "false"),
        None => true,
    }
}

/// Reads the release-modifier setting: `"ignore"` drops the modifier;
/// anything else, or no value, fails the expansion.
pub fn get_release_modifier_behaviour(value: Option<&str>) -> (r: ReleaseModifierBehaviour)
    ensures
        r == (if value matches Some(v) && v@ == "ignore"@ {
            ReleaseModifierBehaviour::Ignore
        } else {
            ReleaseModifierBehaviour::Panic
        }),
{
    match value {
        Some(v) => if str_eq(v, "ignore") {
            ReleaseModifierBehaviour::Ignore
        } else {
            ReleaseModifierBehaviour::Panic
        },
        None => ReleaseModifierBehaviour::Panic,
    }
}

/// Whether a manifest declares documentation-service metadata; no manifest
/// means no.
pub fn if_docsrs_enabled(manifest: Option<&str>) -> (r: bool)
    ensures
        r == (manifest matches Some(m) && contains_spec(m@, "[package.metadata.docs.rs]"@)),
{
    match manifest {
        Some(m) => contains(m, "[package.metadata.docs.rs]"),
        None => false,
    }
}

/// The documentation-tag flag, computed at most once per build and kept
/// until reset.
pub struct DocFlagCache {
    value: Option<bool>,
}

impl DocFlagCache {
    /// The flag, if it was computed.
    pub closed spec fn cached(&self) -> Option<bool> {
        self.value
    }

    /// An empty cache.
    pub fn new() -> (r: DocFlagCache)
        ensures
            r.cached() is None,
    {
        DocFlagCache { value: None }
    }

    /// The flag, if it was computed.
    pub fn get(&self) -> (r: Option<bool>)
        ensures
            r == self.cached(),
    {
        self.value
    }

    /// The cached flag; when there is none, the flag of `manifest`, which
    /// is cached.
    pub fn get_or_compute(&mut self, manifest: Option<&str>) -> (r: bool)
        ensures
            old(self).cached() matches Some(v) ==> r == v && final(self).cached() == old(self).cached(),
            old(self).cached() is None ==> r == (manifest matches Some(m) && contains_spec(
                m@,
                "[package.metadata.docs.rs]"@,
            )) && final(self).cached() == Some(r),
    {
        match self.value {
            Some(v) => v,
            None => {
                let v = if_docsrs_enabled(manifest);
                self.value = Some(v);
                v
            },
        }
    }

    /// Forgets the flag.
    pub fn reset(&mut self)
        ensures
            final(self).cached() is None,
    {
        self.value = None;
    }
}

} // verus!
