use four_code::language::{detect_from_shebang, detect_language, Language};

#[test]
fn test_detect_php() {
    assert_eq!(detect_language("test.php"), Some(Language::Php));
}

#[test]
fn test_detect_javascript() {
    assert_eq!(detect_language("app.js"), Some(Language::JavaScript));
    assert_eq!(detect_language("app.mjs"), Some(Language::JavaScript));
}

#[test]
fn test_detect_unknown() {
    assert_eq!(detect_language("file.xyz"), None);
}

#[test]
fn test_php_extensions() {
    assert_eq!(detect_language("index.php"), Some(Language::Php));
    assert_eq!(detect_language("template.phtml"), Some(Language::Php));
}

#[test]
fn test_shebang_php() {
    assert_eq!(detect_from_shebang("#!/usr/bin/env php"), Some(Language::Php));
    assert_eq!(detect_from_shebang("#!/usr/bin/php"), Some(Language::Php));
}

#[test]
fn test_shebang_node() {
    assert_eq!(detect_from_shebang("#!/usr/bin/env node"), Some(Language::JavaScript));
}

#[test]
fn test_detect_case_and_paths() {
    // the extension is taken from the file name and folded to lower case
    assert_eq!(detect_language("/srv/www/INDEX.PHP"), Some(Language::Php));
    assert_eq!(detect_language("src/main.rs"), Some(Language::Rust));
    assert_eq!(detect_language("conf.yml"), Some(Language::Yaml));
    // a hidden file's leading dot starts no extension
    assert_eq!(detect_language(".bashrc"), None);
    assert_eq!(detect_language("noextension"), None);
}

#[test]
fn test_shebang_rejects_plain_lines() {
    assert_eq!(detect_from_shebang("echo php"), None);
    assert_eq!(detect_from_shebang("#!/usr/bin/env python3"), None);
    assert_eq!(detect_from_shebang("#!/bin/sh"), Some(Language::Bash));
}

#[test]
fn test_language_names() {
    assert_eq!(Language::Php.name(), "php");
    assert_eq!(Language::Tsx.name(), "tsx");
    assert_eq!(Language::Markdown.name(), "markdown");
}
