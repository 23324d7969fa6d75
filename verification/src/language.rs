//! Language detection and supported languages.
//!
//! A language is detected from a file path's extension, or from a
//! shebang line for files without a useful extension.

use vstd::prelude::*;

use crate::editor::basename_cut;
use crate::strutil::{contains_lower, contains_seq, eq_lower, lower_seq};

verus! {

/// Supported languages for syntax highlighting.
#[derive(Debug, Clone, Copy, PartialEq, Eq, Hash, Structural)]
pub enum Language {
    Php,
    JavaScript,
    TypeScript,
    Tsx,
    Json,
    Html,
    Css,
    Yaml,
    Toml,
    Bash,
    Markdown,
    Rust,
}

/// The name of each language, as the highlighting queries know it.
pub open spec fn spec_name(l: Language) -> Seq<char> {
    match l {
        Language::Php => "php"@,
        Language::JavaScript => "javascript"@,
        Language::TypeScript => "typescript"@,
        Language::Tsx => "tsx"@,
        Language::Json => "json"@,
        Language::Html => "html"@,
        Language::Css => "css"@,
        Language::Yaml => "yaml"@,
        Language::Toml => "toml"@,
        Language::Bash => "bash"@,
        Language::Markdown => "markdown"@,
        Language::Rust => "rust"@,
    }
}

impl Language {
    /// Get the language name as the highlighting queries use it.
    pub fn name(&self) -> (r: &'static str)
        ensures
            r@ == spec_name(*self),
    {
        match self {
            Language::Php => "php",
            Language::JavaScript => "javascript",
            Language::TypeScript => "typescript",
            Language::Tsx => "tsx",
            Language::Json => "json",
            Language::Html => "html",
            Language::Css => "css",
            Language::Yaml => "yaml",
            Language::Toml => "toml",
            Language::Bash => "bash",
            Language::Markdown => "markdown",
            Language::Rust => "rust",
        }
    }
}

/// All supported languages, in a fixed order.
pub open spec fn spec_supported_languages() -> Seq<Language> {
    seq![
        Language::Php,
        Language::JavaScript,
        Language::TypeScript,
        Language::Tsx,
        Language::Json,
        Language::Html,
        Language::Css,
        Language::Yaml,
        Language::Toml,
        Language::Bash,
        Language::Markdown,
        Language::Rust,
    ]
}

/// The position of each language in the fixed support list.
pub open spec fn lang_index(l: Language) -> int {
    match l {
        Language::Php => 0,
        Language::JavaScript => 1,
        Language::TypeScript => 2,
        Language::Tsx => 3,
        Language::Json => 4,
        Language::Html => 5,
        Language::Css => 6,
        Language::Yaml => 7,
        Language::Toml => 8,
        Language::Bash => 9,
        Language::Markdown => 10,
        Language::Rust => 11,
    }
}

/// Every language stands at its index in the fixed support list.
pub proof fn lemma_language_listed(l: Language)
    ensures
        0 <= lang_index(l) < spec_supported_languages().len(),
        spec_supported_languages()[lang_index(l)] == l,
{
}

/// The fixed support list names no language twice.
pub proof fn lemma_languages_distinct()
    ensures
        forall|a: int, b: int|
            0 <= a < b < spec_supported_languages().len()
                ==> #[trigger] spec_supported_languages()[a]
                != #[trigger] spec_supported_languages()[b],
{
    assert forall|a: int, b: int|
        0 <= a < b < spec_supported_languages().len()
            implies #[trigger] spec_supported_languages()[a]
            != #[trigger] spec_supported_languages()[b] by {
        assert(spec_supported_languages()[lang_index(spec_supported_languages()[a])]
            == spec_supported_languages()[a]);
        assert(lang_index(spec_supported_languages()[a]) == a);
        assert(lang_index(spec_supported_languages()[b]) == b);
    }
}

/// Build the fixed support list.
pub fn supported_languages() -> (r: Vec<Language>)
    ensures
        r@ == spec_supported_languages(),
{
    let mut v: Vec<Language> = Vec::new();
    v.push(Language::Php);
    v.push(Language::JavaScript);
    v.push(Language::TypeScript);
    v.push(Language::Tsx);
    v.push(Language::Json);
    v.push(Language::Html);
    v.push(Language::Css);
    v.push(Language::Yaml);
    v.push(Language::Toml);
    v.push(Language::Bash);
    v.push(Language::Markdown);
    v.push(Language::Rust);
    proof {
        assert(v@ =~= spec_supported_languages());
    }
    v
}

/// Where a file name's extension begins: right after the last `.` among
/// the first `upto` characters, or 0 if there is none.
pub open spec fn ext_cut(f: Seq<char>, upto: int) -> int
    decreases upto,
{
    if upto <= 0 {
        0
    } else if f[upto - 1] == '.' {
        upto
    } else {
        ext_cut(f, upto - 1)
    }
}

/// A file name's extension: what follows its last `.`, or nothing if it
/// has none or begins with its only `.` (a hidden file).
pub open spec fn extension_of(f: Seq<char>) -> Option<Seq<char>> {
    let c = ext_cut(f, f.len() as int);
    if c <= 1 {
        None
    } else {
        Some(f.subrange(c, f.len() as int))
    }
}

/// The language a lower-cased extension maps to.
pub open spec fn lang_for_ext(e: Seq<char>) -> Option<Language> {
    if e == "php"@ || e == "phtml"@ || e == "php3"@ || e == "php4"@ || e == "php5"@ || e
        == "phps"@ {
        Some(Language::Php)
    } else if e == "js"@ || e == "mjs"@ || e == "cjs"@ || e == "jsx"@ {
        Some(Language::JavaScript)
    } else if e == "ts"@ || e == "mts"@ || e == "cts"@ {
        Some(Language::TypeScript)
    } else if e == "tsx"@ {
        Some(Language::Tsx)
    } else if e == "json"@ {
        Some(Language::Json)
    } else if e == "html"@ || e == "htm"@ || e == "xhtml"@ {
        Some(Language::Html)
    } else if e == "css"@ || e == "scss"@ || e == "sass"@ || e == "less"@ {
        Some(Language::Css)
    } else if e == "yaml"@ || e == "yml"@ {
        Some(Language::Yaml)
    } else if e == "toml"@ {
        Some(Language::Toml)
    } else if e == "sh"@ || e == "bash"@ || e == "zsh"@ || e == "fish"@ {
        Some(Language::Bash)
    } else if e == "md"@ || e == "markdown"@ {
        Some(Language::Markdown)
    } else if e == "rs"@ {
        Some(Language::Rust)
    } else {
        None
    }
}

/// The language a path maps to: its file name's extension, folded to
/// lower case, looked up in the fixed table.
pub open spec fn spec_detect_language(p: Seq<char>) -> Option<Language> {
    let f = p.subrange(basename_cut(p, p.len() as int), p.len() as int);
    match extension_of(f) {
        Some(e) => lang_for_ext(lower_seq(e)),
        None => None,
    }
}

/// Detect the language from a file path's extension.
pub fn detect_language(path: &str) -> (r: Option<Language>)
    ensures
        r == spec_detect_language(path@),
{
    let n = path.unicode_len();
    // find where the file name begins
    let mut cut: usize = 0;
    let mut j: usize = 0;
    while j < n
        invariant
            j <= n,
            n == path@.len(),
            cut <= j,
            cut == basename_cut(path@, j as int),
        decreases n - j,
    {
        if path.get_char(j) == '/' {
            cut = j + 1;
        }
        j = j + 1;
    }
    let name = path.substring_char(cut, n);
    // find where the extension begins within the file name
    let fn_len = n - cut;
    let mut ecut: usize = 0;
    let mut k: usize = 0;
    while k < fn_len
        invariant
            k <= fn_len,
            fn_len == name@.len(),
            ecut <= k,
            ecut == ext_cut(name@, k as int),
        decreases fn_len - k,
    {
        if name.get_char(k) == '.' {
            ecut = k + 1;
        }
        k = k + 1;
    }
    if ecut <= 1 {
        return None;
    }
    let ext = name.substring_char(ecut, fn_len);
    let r = if eq_lower(ext, "php") || eq_lower(ext, "phtml") || eq_lower(ext, "php3") || eq_lower(
        ext,
        "php4",
    ) || eq_lower(ext, "php5") || eq_lower(ext, "phps") {
        Some(Language::Php)
    } else if eq_lower(ext, "js") || eq_lower(ext, "mjs") || eq_lower(ext, "cjs") || eq_lower(
        ext,
        "jsx",
    ) {
        Some(Language::JavaScript)
    } else if eq_lower(ext, "ts") || eq_lower(ext, "mts") || eq_lower(ext, "cts") {
        Some(Language::TypeScript)
    } else if eq_lower(ext, "tsx") {
        Some(Language::Tsx)
    } else if eq_lower(ext, "json") {
        Some(Language::Json)
    } else if eq_lower(ext, "html") || eq_lower(ext, "htm") || eq_lower(ext, "xhtml") {
        Some(Language::Html)
    } else if eq_lower(ext, "css") || eq_lower(ext, "scss") || eq_lower(ext, "sass") || eq_lower(
        ext,
        "less",
    ) {
        Some(Language::Css)
    } else if eq_lower(ext, "yaml") || eq_lower(ext, "yml") {
        Some(Language::Yaml)
    } else if eq_lower(ext, "toml") {
        Some(Language::Toml)
    } else if eq_lower(ext, "sh") || eq_lower(ext, "bash") || eq_lower(ext, "zsh") || eq_lower(
        ext,
        "fish",
    ) {
        Some(Language::Bash)
    } else if eq_lower(ext, "md") || eq_lower(ext, "markdown") {
        Some(Language::Markdown)
    } else if eq_lower(ext, "rs") {
        Some(Language::Rust)
    } else {
        None
    };
    r
}

/// The language a shebang line maps to: a line opening `#!` searched,
/// folded to lower case, for well-known interpreter names.
pub open spec fn spec_detect_from_shebang(l: Seq<char>) -> Option<Language> {
    if !(l.len() >= 2 && l[0] == '#' && l[1] == '!') {
        None
    } else if contains_seq(lower_seq(l), "php"@) {
        Some(Language::Php)
    } else if contains_seq(lower_seq(l), "node"@) || contains_seq(lower_seq(l), "deno"@)
        || contains_seq(lower_seq(l), "bun"@) {
        Some(Language::JavaScript)
    } else if contains_seq(lower_seq(l), "bash"@) || contains_seq(lower_seq(l), "/sh"@) {
        Some(Language::Bash)
    } else {
        None
    }
}

/// Detect the language from a shebang line.
pub fn detect_from_shebang(first_line: &str) -> (r: Option<Language>)
    ensures
        r == spec_detect_from_shebang(first_line@),
{
    let n = first_line.unicode_len();
    if n < 2 {
        return None;
    }
    if first_line.get_char(0) != '#' || first_line.get_char(1) != '!' {
        return None;
    }
    if contains_lower(first_line, "php") {
        Some(Language::Php)
    } else if contains_lower(first_line, "node") || contains_lower(first_line, "deno")
        || contains_lower(first_line, "bun") {
        Some(Language::JavaScript)
    } else if contains_lower(first_line, "bash") || contains_lower(first_line, "/sh") {
        Some(Language::Bash)
    } else {
        None
    }
}

} // verus!
