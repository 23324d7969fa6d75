//! Trusted boundary around the tree-sitter tokenizing engine, and the
//! table of per-language highlight configurations built on it.
//!
//! The engine classifies byte ranges of a line into highlight categories.
//! Everything it reports crosses into the library as plain [`HlEvent`]
//! values; what the library then does with them is verified. The stream
//! itself is the engine's: it is not restated here, only named — run
//! without a cancellation flag and without injected languages it is a
//! function of the configuration and the line alone ([`config_tokens`]),
//! as is whether each grammar's queries compile at all. The cache
//! degrades to an unstyled line when the engine fails.

use vstd::prelude::*;

use tree_sitter_highlight::HighlightEvent;

use crate::language::{
    lemma_language_listed, lemma_languages_distinct, spec_supported_languages,
    supported_languages, Language,
};
use crate::style::highlight_names;

verus! {

#[verifier::external_type_specification]
#[verifier::external_body]
pub struct ExHighlightConfiguration(tree_sitter_highlight::HighlightConfiguration);

/// One step of the tokenizing engine's output for a line.
pub enum HlEvent {
    /// A run of the line's text.
    Text(String),
    /// A highlight category opens; the index refers into the configured
    /// category names.
    Start(usize),
    /// The innermost open category closes.
    End,
}

/// What the engine reports for one line under one configuration, as
/// converted plain values: `None` for an engine error, `Some` for the
/// event stream. Run with no cancellation flag and no injected
/// languages, the stream is a function of the configuration and the
/// line alone, so it can be named.
pub uninterp spec fn config_tokens(
    config: tree_sitter_highlight::HighlightConfiguration,
    line: Seq<char>,
) -> Option<Seq<HlEvent>>;

/// Whether the `tree_sitter_php` highlight configuration builds,
/// recognizing the given category names; the grammar and query
/// constants alone decide it.
pub uninterp spec fn php_config_built(names: Seq<Seq<char>>) -> bool;

/// Relies on `tree_sitter_php` (grammar and queries) and on
/// `tree_sitter_highlight::HighlightConfiguration::new` and `configure`:
/// builds the highlight configuration recognizing the given category
/// names, or nothing if the queries fail to compile.
#[verifier::external_body]
fn php_config(names: &Vec<&'static str>) -> (r: Option<
    tree_sitter_highlight::HighlightConfiguration,
>)
    ensures
        r is Some <==> php_config_built(names@.map_values(|s: &'static str| s@)),
{
    let mut c = tree_sitter_highlight::HighlightConfiguration::new(
        tree_sitter_php::LANGUAGE_PHP.into(),
        "php",
        tree_sitter_php::HIGHLIGHTS_QUERY,
        tree_sitter_php::INJECTIONS_QUERY,
        "",
    ).ok()?;
    c.configure(names.as_slice());
    Some(c)
}

/// Whether the `tree_sitter_javascript` highlight configuration builds,
/// recognizing the given category names; the grammar and query
/// constants alone decide it.
pub uninterp spec fn javascript_config_built(names: Seq<Seq<char>>) -> bool;

/// Relies on `tree_sitter_javascript` (grammar and queries) and on
/// `tree_sitter_highlight::HighlightConfiguration::new` and `configure`:
/// builds the highlight configuration recognizing the given category
/// names, or nothing if the queries fail to compile.
#[verifier::external_body]
fn javascript_config(names: &Vec<&'static str>) -> (r: Option<
    tree_sitter_highlight::HighlightConfiguration,
>)
    ensures
        r is Some <==> javascript_config_built(names@.map_values(|s: &'static str| s@)),
{
    let mut c = tree_sitter_highlight::HighlightConfiguration::new(
        tree_sitter_javascript::LANGUAGE.into(),
        "javascript",
        tree_sitter_javascript::HIGHLIGHT_QUERY,
        tree_sitter_javascript::INJECTIONS_QUERY,
        "",
    ).ok()?;
    c.configure(names.as_slice());
    Some(c)
}

/// Whether the `tree_sitter_typescript` highlight configuration builds,
/// recognizing the given category names; the grammar and query
/// constants alone decide it.
pub uninterp spec fn typescript_config_built(names: Seq<Seq<char>>) -> bool;

/// Relies on `tree_sitter_typescript` (grammar and queries) and on
/// `tree_sitter_highlight::HighlightConfiguration::new` and `configure`:
/// builds the highlight configuration recognizing the given category
/// names, or nothing if the queries fail to compile.
#[verifier::external_body]
fn typescript_config(names: &Vec<&'static str>) -> (r: Option<
    tree_sitter_highlight::HighlightConfiguration,
>)
    ensures
        r is Some <==> typescript_config_built(names@.map_values(|s: &'static str| s@)),
{
    let mut c = tree_sitter_highlight::HighlightConfiguration::new(
        tree_sitter_typescript::LANGUAGE_TYPESCRIPT.into(),
        "typescript",
        tree_sitter_typescript::HIGHLIGHTS_QUERY,
        "",
        "",
    ).ok()?;
    c.configure(names.as_slice());
    Some(c)
}

/// Whether the `tree_sitter_typescript` highlight configuration builds,
/// recognizing the given category names; the grammar and query
/// constants alone decide it.
pub uninterp spec fn tsx_config_built(names: Seq<Seq<char>>) -> bool;

/// Relies on `tree_sitter_typescript` (grammar and queries) and on
/// `tree_sitter_highlight::HighlightConfiguration::new` and `configure`:
/// builds the highlight configuration recognizing the given category
/// names, or nothing if the queries fail to compile.
#[verifier::external_body]
fn tsx_config(names: &Vec<&'static str>) -> (r: Option<
    tree_sitter_highlight::HighlightConfiguration,
>)
    ensures
        r is Some <==> tsx_config_built(names@.map_values(|s: &'static str| s@)),
{
    let mut c = tree_sitter_highlight::HighlightConfiguration::new(
        tree_sitter_typescript::LANGUAGE_TSX.into(),
        "tsx",
        tree_sitter_typescript::HIGHLIGHTS_QUERY,
        "",
        "",
    ).ok()?;
    c.configure(names.as_slice());
    Some(c)
}

/// Whether the `tree_sitter_json` highlight configuration builds,
/// recognizing the given category names; the grammar and query
/// constants alone decide it.
pub uninterp spec fn json_config_built(names: Seq<Seq<char>>) -> bool;

/// Relies on `tree_sitter_json` (grammar and queries) and on
/// `tree_sitter_highlight::HighlightConfiguration::new` and `configure`:
/// builds the highlight configuration recognizing the given category
/// names, or nothing if the queries fail to compile.
#[verifier::external_body]
fn json_config(names: &Vec<&'static str>) -> (r: Option<
    tree_sitter_highlight::HighlightConfiguration,
>)
    ensures
        r is Some <==> json_config_built(names@.map_values(|s: &'static str| s@)),
{
    let mut c = tree_sitter_highlight::HighlightConfiguration::new(
        tree_sitter_json::LANGUAGE.into(),
        "json",
        tree_sitter_json::HIGHLIGHTS_QUERY,
        "",
        "",
    ).ok()?;
    c.configure(names.as_slice());
    Some(c)
}

/// Whether the `tree_sitter_html` highlight configuration builds,
/// recognizing the given category names; the grammar and query
/// constants alone decide it.
pub uninterp spec fn html_config_built(names: Seq<Seq<char>>) -> bool;

/// Relies on `tree_sitter_html` (grammar and queries) and on
/// `tree_sitter_highlight::HighlightConfiguration::new` and `configure`:
/// builds the highlight configuration recognizing the given category
/// names, or nothing if the queries fail to compile.
#[verifier::external_body]
fn html_config(names: &Vec<&'static str>) -> (r: Option<
    tree_sitter_highlight::HighlightConfiguration,
>)
    ensures
        r is Some <==> html_config_built(names@.map_values(|s: &'static str| s@)),
{
    let mut c = tree_sitter_highlight::HighlightConfiguration::new(
        tree_sitter_html::LANGUAGE.into(),
        "html",
        tree_sitter_html::HIGHLIGHTS_QUERY,
        tree_sitter_html::INJECTIONS_QUERY,
        "",
    ).ok()?;
    c.configure(names.as_slice());
    Some(c)
}

/// Whether the `tree_sitter_css` highlight configuration builds,
/// recognizing the given category names; the grammar and query
/// constants alone decide it.
pub uninterp spec fn css_config_built(names: Seq<Seq<char>>) -> bool;

/// Relies on `tree_sitter_css` (grammar and queries) and on
/// `tree_sitter_highlight::HighlightConfiguration::new` and `configure`:
/// builds the highlight configuration recognizing the given category
/// names, or nothing if the queries fail to compile.
#[verifier::external_body]
fn css_config(names: &Vec<&'static str>) -> (r: Option<
    tree_sitter_highlight::HighlightConfiguration,
>)
    ensures
        r is Some <==> css_config_built(names@.map_values(|s: &'static str| s@)),
{
    let mut c = tree_sitter_highlight::HighlightConfiguration::new(
        tree_sitter_css::LANGUAGE.into(),
        "css",
        tree_sitter_css::HIGHLIGHTS_QUERY,
        "",
        "",
    ).ok()?;
    c.configure(names.as_slice());
    Some(c)
}

/// Whether the `tree_sitter_yaml` highlight configuration builds,
/// recognizing the given category names; the grammar and query
/// constants alone decide it.
pub uninterp spec fn yaml_config_built(names: Seq<Seq<char>>) -> bool;

/// Relies on `tree_sitter_yaml` (grammar and queries) and on
/// `tree_sitter_highlight::HighlightConfiguration::new` and `configure`:
/// builds the highlight configuration recognizing the given category
/// names, or nothing if the queries fail to compile.
#[verifier::external_body]
fn yaml_config(names: &Vec<&'static str>) -> (r: Option<
    tree_sitter_highlight::HighlightConfiguration,
>)
    ensures
        r is Some <==> yaml_config_built(names@.map_values(|s: &'static str| s@)),
{
    let mut c = tree_sitter_highlight::HighlightConfiguration::new(
        tree_sitter_yaml::LANGUAGE.into(),
        "yaml",
        tree_sitter_yaml::HIGHLIGHTS_QUERY,
        "",
        "",
    ).ok()?;
    c.configure(names.as_slice());
    Some(c)
}

/// Whether the `tree_sitter_toml_ng` highlight configuration builds,
/// recognizing the given category names; the grammar and query
/// constants alone decide it.
pub uninterp spec fn toml_config_built(names: Seq<Seq<char>>) -> bool;

/// Relies on `tree_sitter_toml_ng` (grammar and queries) and on
/// `tree_sitter_highlight::HighlightConfiguration::new` and `configure`:
/// builds the highlight configuration recognizing the given category
/// names, or nothing if the queries fail to compile.
#[verifier::external_body]
fn toml_config(names: &Vec<&'static str>) -> (r: Option<
    tree_sitter_highlight::HighlightConfiguration,
>)
    ensures
        r is Some <==> toml_config_built(names@.map_values(|s: &'static str| s@)),
{
    let mut c = tree_sitter_highlight::HighlightConfiguration::new(
        tree_sitter_toml_ng::LANGUAGE.into(),
        "toml",
        tree_sitter_toml_ng::HIGHLIGHTS_QUERY,
        "",
        "",
    ).ok()?;
    c.configure(names.as_slice());
    Some(c)
}

/// Whether the `tree_sitter_bash` highlight configuration builds,
/// recognizing the given category names; the grammar and query
/// constants alone decide it.
pub uninterp spec fn bash_config_built(names: Seq<Seq<char>>) -> bool;

/// Relies on `tree_sitter_bash` (grammar and queries) and on
/// `tree_sitter_highlight::HighlightConfiguration::new` and `configure`:
/// builds the highlight configuration recognizing the given category
/// names, or nothing if the queries fail to compile.
#[verifier::external_body]
fn bash_config(names: &Vec<&'static str>) -> (r: Option<
    tree_sitter_highlight::HighlightConfiguration,
>)
    ensures
        r is Some <==> bash_config_built(names@.map_values(|s: &'static str| s@)),
{
    let mut c = tree_sitter_highlight::HighlightConfiguration::new(
        tree_sitter_bash::LANGUAGE.into(),
        "bash",
        tree_sitter_bash::HIGHLIGHT_QUERY,
        "",
        "",
    ).ok()?;
    c.configure(names.as_slice());
    Some(c)
}

/// Whether the `tree_sitter_md` highlight configuration builds,
/// recognizing the given category names; the grammar and query
/// constants alone decide it.
pub uninterp spec fn markdown_config_built(names: Seq<Seq<char>>) -> bool;

/// Relies on `tree_sitter_md` (grammar and queries) and on
/// `tree_sitter_highlight::HighlightConfiguration::new` and `configure`:
/// builds the highlight configuration recognizing the given category
/// names, or nothing if the queries fail to compile.
#[verifier::external_body]
fn markdown_config(names: &Vec<&'static str>) -> (r: Option<
    tree_sitter_highlight::HighlightConfiguration,
>)
    ensures
        r is Some <==> markdown_config_built(names@.map_values(|s: &'static str| s@)),
{
    let mut c = tree_sitter_highlight::HighlightConfiguration::new(
        tree_sitter_md::LANGUAGE.into(),
        "markdown",
        tree_sitter_md::HIGHLIGHT_QUERY_BLOCK,
        tree_sitter_md::INJECTION_QUERY_BLOCK,
        "",
    ).ok()?;
    c.configure(names.as_slice());
    Some(c)
}

/// Whether the `tree_sitter_rust` highlight configuration builds,
/// recognizing the given category names; the grammar and query
/// constants alone decide it.
pub uninterp spec fn rust_config_built(names: Seq<Seq<char>>) -> bool;

/// Relies on `tree_sitter_rust` (grammar and queries) and on
/// `tree_sitter_highlight::HighlightConfiguration::new` and `configure`:
/// builds the highlight configuration recognizing the given category
/// names, or nothing if the queries fail to compile.
#[verifier::external_body]
fn rust_config(names: &Vec<&'static str>) -> (r: Option<
    tree_sitter_highlight::HighlightConfiguration,
>)
    ensures
        r is Some <==> rust_config_built(names@.map_values(|s: &'static str| s@)),
{
    let mut c = tree_sitter_highlight::HighlightConfiguration::new(
        tree_sitter_rust::LANGUAGE.into(),
        "rust",
        tree_sitter_rust::HIGHLIGHTS_QUERY,
        "",
        "",
    ).ok()?;
    c.configure(names.as_slice());
    Some(c)
}

/// Whether the given language's highlight configuration builds,
/// recognizing the given category names.
pub open spec fn config_ok(language: Language, names: Seq<Seq<char>>) -> bool {
    match language {
        Language::Php => php_config_built(names),
        Language::JavaScript => javascript_config_built(names),
        Language::TypeScript => typescript_config_built(names),
        Language::Tsx => tsx_config_built(names),
        Language::Json => json_config_built(names),
        Language::Html => html_config_built(names),
        Language::Css => css_config_built(names),
        Language::Yaml => yaml_config_built(names),
        Language::Toml => toml_config_built(names),
        Language::Bash => bash_config_built(names),
        Language::Markdown => markdown_config_built(names),
        Language::Rust => rust_config_built(names),
    }
}

/// Build the highlight configuration for one language.
fn build_config(language: Language, names: &Vec<&'static str>) -> (r: Option<
    tree_sitter_highlight::HighlightConfiguration,
>)
    ensures
        r is Some <==> config_ok(language, names@.map_values(|s: &'static str| s@)),
{
    match language {
        Language::Php => php_config(names),
        Language::JavaScript => javascript_config(names),
        Language::TypeScript => typescript_config(names),
        Language::Tsx => tsx_config(names),
        Language::Json => json_config(names),
        Language::Html => html_config(names),
        Language::Css => css_config(names),
        Language::Yaml => yaml_config(names),
        Language::Toml => toml_config(names),
        Language::Bash => bash_config(names),
        Language::Markdown => markdown_config(names),
        Language::Rust => rust_config(names),
    }
}

/// Relies on `tree_sitter_highlight::Highlighter::highlight`: tokenizes
/// one line and hands its event stream over as plain values, or nothing
/// if the engine reports an error. Run with no cancellation flag and no
/// injected languages, the outcome is a function of the configuration
/// and the line alone, which [`config_tokens`] names. A source span is
/// the event's byte range of the line; one that is no well-formed range
/// of it is skipped, which the engine's stream never yields anyway.
#[verifier::external_body]
fn run_tokenizer(
    config: &tree_sitter_highlight::HighlightConfiguration,
    line: &str,
) -> (r: Option<Vec<HlEvent>>)
    ensures
        match r {
            Some(v) => config_tokens(*config, line@) == Some(v@),
            None => config_tokens(*config, line@) is None,
        },
{
    let mut ts = tree_sitter_highlight::Highlighter::new();
    let iter = ts.highlight(config, line.as_bytes(), None, None, |_| None).ok()?;
    let mut out: Vec<HlEvent> = Vec::new();
    for ev in iter {
        match ev {
            Ok(HighlightEvent::Source { start, end }) => {
                out.extend(line.get(start..end).map(|t| HlEvent::Text(t.to_string())))
            },
            Ok(HighlightEvent::HighlightStart(h)) => out.push(HlEvent::Start(h.0)),
            Ok(HighlightEvent::HighlightEnd) => out.push(HlEvent::End),
            Err(_) => return None,
        }
    }
    Some(out)
}

/// The per-language highlight configurations, built once at startup and
/// passed by reference to whoever tokenizes.
pub struct Highlighter {
    configs: Vec<(Language, tree_sitter_highlight::HighlightConfiguration)>,
    names: Vec<&'static str>,
}

impl Highlighter {
    /// The configured highlight category names, as character sequences.
    pub closed spec fn spec_names(&self) -> Seq<Seq<char>> {
        self.names@.map_values(|s: &'static str| s@)
    }

    /// Whether a configuration was built for the language.
    pub closed spec fn has_lang(&self, language: Language) -> bool {
        exists|i: int| 0 <= i < self.configs@.len() && self.configs@[i].0 == language
    }

    /// Well-formedness: no language has two configurations.
    pub closed spec fn wf(&self) -> bool {
        forall|i: int, j: int|
            0 <= i < j < self.configs@.len() ==> self.configs@[i].0 != self.configs@[j].0
    }

    /// The configuration stored for a supported language.
    pub closed spec fn spec_config(&self, language: Language) -> tree_sitter_highlight::HighlightConfiguration {
        self.configs@[choose|i: int|
            0 <= i < self.configs@.len() && self.configs@[i].0 == language].1
    }

    /// Create a highlighter holding exactly the supported languages
    /// whose queries compile.
    #[verifier::rlimit(100)]
    pub fn new() -> (h: Highlighter)
        ensures
            h.wf(),
            h.spec_names() == crate::style::spec_highlight_names(),
            forall|l: Language|
                h.has_lang(l) <==> config_ok(l, crate::style::spec_highlight_names()),
    {
        let names = highlight_names();
        let langs = supported_languages();
        proof {
            assert(names@.map_values(|s: &'static str| s@)
                =~= crate::style::spec_highlight_names());
            lemma_languages_distinct();
        }
        let ghost langs_v = langs@;
        let ghost names_v = crate::style::spec_highlight_names();
        let mut configs: Vec<(Language, tree_sitter_highlight::HighlightConfiguration)> =
            Vec::new();
        let mut i: usize = 0;
        while i < langs.len()
            invariant
                i <= langs_v.len(),
                langs@ == langs_v,
                langs_v == spec_supported_languages(),
                names_v == crate::style::spec_highlight_names(),
                forall|a: int, b: int|
                    0 <= a < b < langs_v.len() ==> #[trigger] langs_v[a] != #[trigger] langs_v[b],
                names@.map_values(|s: &'static str| s@) == names_v,
                forall|j: int|
                    0 <= j < configs@.len() ==> exists|k: int|
                        0 <= k < i && #[trigger] configs@[j].0 == langs_v[k],
                forall|a: int, b: int|
                    0 <= a < b < configs@.len() ==> #[trigger] configs@[a].0 != #[trigger] configs@[b].0,
                forall|k: int|
                    0 <= k < i ==> ((exists|j: int|
                        0 <= j < configs@.len() && #[trigger] configs@[j].0 == langs_v[k])
                        <==> config_ok(langs_v[k], names_v)),
            decreases langs@.len() - i,
        {
            let language = langs[i];
            let ghost before = configs@;
            proof {
                assert(language == langs_v[i as int]);
                assert forall|j: int| 0 <= j < before.len() implies #[trigger] before[j].0
                    != language by {
                    let k = choose|k: int| 0 <= k < i && before[j].0 == langs_v[k];
                    assert(langs_v[k] != langs_v[i as int]);
                }
            }
            match build_config(language, &names) {
                Some(config) => {
                    configs.push((language, config));
                    proof {
                        assert(configs@ == before.push((language, config)));
                        assert(configs@[before.len() as int].0 == langs_v[i as int]);
                        assert forall|j: int| 0 <= j < configs@.len() implies exists|k: int|
                            0 <= k < i + 1 && #[trigger] configs@[j].0 == langs_v[k] by {
                            if j < before.len() {
                                assert(configs@[j].0 == before[j].0);
                                let k = choose|k: int| 0 <= k < i && before[j].0 == langs_v[k];
                                assert(0 <= k < i + 1 && configs@[j].0 == langs_v[k]);
                            } else {
                                assert(configs@[j].0 == langs_v[i as int]);
                            }
                        }
                        assert forall|k: int|
                            0 <= k < i + 1 implies ((exists|j: int|
                                0 <= j < configs@.len() && #[trigger] configs@[j].0 == langs_v[k])
                                <==> config_ok(langs_v[k], names_v)) by {
                            if k < i {
                                if exists|j: int|
                                    0 <= j < configs@.len() && #[trigger] configs@[j].0
                                        == langs_v[k] {
                                    let j = choose|j: int|
                                        0 <= j < configs@.len() && #[trigger] configs@[j].0
                                            == langs_v[k];
                                    assert(j < before.len());
                                    assert(before[j].0 == langs_v[k]);
                                }
                                if config_ok(langs_v[k], names_v) {
                                    let j = choose|j: int|
                                        0 <= j < before.len() && #[trigger] before[j].0
                                            == langs_v[k];
                                    assert(configs@[j].0 == langs_v[k]);
                                }
                            } else {
                                assert(configs@[before.len() as int].0 == langs_v[k]);
                            }
                        }
                    }
                },
                None => {
                    proof {
                        assert forall|k: int|
                            0 <= k < i + 1 implies ((exists|j: int|
                                0 <= j < configs@.len() && #[trigger] configs@[j].0 == langs_v[k])
                                <==> config_ok(langs_v[k], names_v)) by {
                            if k == i {
                                assert(!config_ok(langs_v[k], names_v));
                                assert(forall|j: int|
                                    0 <= j < configs@.len() ==> #[trigger] configs@[j].0
                                        != langs_v[k]);
                            }
                        }
                    }
                },
            }
            i = i + 1;
        }
        let h = Highlighter { configs, names };
        proof {
            assert(h.spec_names() =~= crate::style::spec_highlight_names());
            assert forall|l: Language|
                h.has_lang(l) <==> config_ok(l, crate::style::spec_highlight_names()) by {
                lemma_language_listed(l);
                let k0 = crate::language::lang_index(l);
                assert(langs_v[k0] == l);
                assert((exists|j: int|
                    0 <= j < configs@.len() && #[trigger] configs@[j].0 == langs_v[k0])
                    <==> config_ok(langs_v[k0], names_v));
                if h.has_lang(l) {
                    let j = choose|j: int|
                        0 <= j < h.configs@.len() && h.configs@[j].0 == l;
                    assert(configs@[j].0 == langs_v[k0]);
                }
                if config_ok(l, crate::style::spec_highlight_names()) {
                    let j = choose|j: int|
                        0 <= j < configs@.len() && #[trigger] configs@[j].0 == langs_v[k0];
                    assert(h.configs@[j].0 == l);
                }
            }
        }
        h
    }

    /// Check if a language is supported by this highlighter.
    pub fn supports_language(&self, language: Language) -> (r: bool)
        ensures
            r == self.has_lang(language),
    {
        let mut i: usize = 0;
        while i < self.configs.len()
            invariant
                i <= self.configs@.len(),
                forall|j: int| 0 <= j < i ==> self.configs@[j].0 != language,
            decreases self.configs@.len() - i,
        {
            if self.configs[i].0 == language {
                return true;
            }
            i = i + 1;
        }
        false
    }

    /// Get the configuration for a language, if one was built.
    pub fn get_config(&self, language: Language) -> (r: Option<
        &tree_sitter_highlight::HighlightConfiguration,
    >)
        requires
            self.wf(),
        ensures
            r is Some <==> self.has_lang(language),
            match r {
                Some(c) => *c == self.spec_config(language),
                None => true,
            },
    {
        let mut i: usize = 0;
        while i < self.configs.len()
            invariant
                self.wf(),
                i <= self.configs@.len(),
                forall|j: int| 0 <= j < i ==> self.configs@[j].0 != language,
            decreases self.configs@.len() - i,
        {
            if self.configs[i].0 == language {
                proof {
                    let w = choose|w: int|
                        0 <= w < self.configs@.len() && self.configs@[w].0 == language;
                    assert(self.configs@[i as int].0 == language);
                    assert(w == i);
                }
                return Some(&self.configs[i].1);
            }
            i = i + 1;
        }
        None
    }

    /// Get the configured highlight category names.
    pub fn highlight_names(&self) -> (r: &Vec<&'static str>)
        ensures
            r@.map_values(|s: &'static str| s@) == self.spec_names(),
    {
        &self.names
    }

    /// Tokenize one line for the given language: the engine's event
    /// stream, or nothing if the language is not supported or the engine
    /// fails. For a supported language the result is exactly the named
    /// stream of this highlighter's configuration for it.
    pub fn tokenize_line(&self, language: Language, line: &str) -> (r: Option<Vec<HlEvent>>)
        requires
            self.wf(),
        ensures
            !self.has_lang(language) ==> r is None,
            self.has_lang(language) ==> match r {
                Some(v) => config_tokens(self.spec_config(language), line@) == Some(v@),
                None => config_tokens(self.spec_config(language), line@) is None,
            },
    {
        match self.get_config(language) {
            Some(config) => run_tokenizer(config, line),
            None => None,
        }
    }
}

} // verus!
