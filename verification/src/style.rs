//! Display styles for highlighted text: a fixed category-to-style table
//! over plain RGB colors, and the list of highlight categories the
//! tokenizing engine is configured with.

use vstd::prelude::*;

use crate::strutil::str_eq;

verus! {

/// A display style: an RGB foreground color plus bold and italic flags.
#[derive(Debug, Clone, Copy, PartialEq, Eq, Structural)]
pub struct TextStyle {
    pub red: u8,
    pub green: u8,
    pub blue: u8,
    pub bold: bool,
    pub italic: bool,
}

/// A plain style with the given color.
pub open spec fn spec_rgb(red: u8, green: u8, blue: u8) -> TextStyle {
    TextStyle { red, green, blue, bold: false, italic: false }
}

impl TextStyle {
    /// A plain style with the given color.
    pub fn rgb(red: u8, green: u8, blue: u8) -> (r: TextStyle)
        ensures
            r == spec_rgb(red, green, blue),
    {
        TextStyle { red, green, blue, bold: false, italic: false }
    }

    /// The default style for unhighlighted text: plain white.
    pub fn default_text() -> (r: TextStyle)
        ensures
            r == spec_rgb(255, 255, 255),
    {
        TextStyle { red: 255, green: 255, blue: 255, bold: false, italic: false }
    }
}

/// The fixed category-to-style table (a One Dark palette).
pub open spec fn spec_style_for_highlight(name: Seq<char>) -> TextStyle {
    if name == "comment"@ {
        TextStyle { red: 92, green: 99, blue: 112, bold: false, italic: true }
    } else if name == "keyword"@ {
        TextStyle { red: 198, green: 120, blue: 221, bold: true, italic: false }
    } else if name == "function"@ || name == "function.builtin"@ || name == "function.method"@ {
        spec_rgb(97, 175, 239)
    } else if name == "string"@ || name == "string.special"@ {
        spec_rgb(152, 195, 121)
    } else if name == "number"@ {
        spec_rgb(209, 154, 102)
    } else if name == "constant"@ || name == "constant.builtin"@ {
        spec_rgb(209, 154, 102)
    } else if name == "type"@ || name == "type.builtin"@ {
        spec_rgb(229, 192, 123)
    } else if name == "variable"@ {
        spec_rgb(224, 108, 117)
    } else if name == "variable.builtin"@ {
        TextStyle { red: 224, green: 108, blue: 117, bold: false, italic: true }
    } else if name == "variable.parameter"@ {
        TextStyle { red: 171, green: 178, blue: 191, bold: false, italic: true }
    } else if name == "property"@ {
        spec_rgb(224, 108, 117)
    } else if name == "operator"@ {
        spec_rgb(171, 178, 191)
    } else if name == "punctuation"@ || name == "punctuation.bracket"@ || name
        == "punctuation.delimiter"@ {
        spec_rgb(171, 178, 191)
    } else if name == "punctuation.special"@ {
        spec_rgb(198, 120, 221)
    } else if name == "constructor"@ {
        TextStyle { red: 229, green: 192, blue: 123, bold: true, italic: false }
    } else if name == "tag"@ {
        spec_rgb(224, 108, 117)
    } else if name == "attribute"@ {
        spec_rgb(209, 154, 102)
    } else if name == "escape"@ {
        spec_rgb(86, 182, 194)
    } else if name == "embedded"@ {
        spec_rgb(198, 120, 221)
    } else {
        spec_rgb(171, 178, 191)
    }
}

/// Get the style for a highlight category; unknown categories map to the
/// default gray.
pub fn style_for_highlight(name: &str) -> (r: TextStyle)
    ensures
        r == spec_style_for_highlight(name@),
{
    if str_eq(name, "comment") {
        TextStyle { red: 92, green: 99, blue: 112, bold: false, italic: true }
    } else if str_eq(name, "keyword") {
        TextStyle { red: 198, green: 120, blue: 221, bold: true, italic: false }
    } else if str_eq(name, "function") || str_eq(name, "function.builtin") || str_eq(
        name,
        "function.method",
    ) {
        TextStyle::rgb(97, 175, 239)
    } else if str_eq(name, "string") || str_eq(name, "string.special") {
        TextStyle::rgb(152, 195, 121)
    } else if str_eq(name, "number") {
        TextStyle::rgb(209, 154, 102)
    } else if str_eq(name, "constant") || str_eq(name, "constant.builtin") {
        TextStyle::rgb(209, 154, 102)
    } else if str_eq(name, "type") || str_eq(name, "type.builtin") {
        TextStyle::rgb(229, 192, 123)
    } else if str_eq(name, "variable") {
        TextStyle::rgb(224, 108, 117)
    } else if str_eq(name, "variable.builtin") {
        TextStyle { red: 224, green: 108, blue: 117, bold: false, italic: true }
    } else if str_eq(name, "variable.parameter") {
        TextStyle { red: 171, green: 178, blue: 191, bold: false, italic: true }
    } else if str_eq(name, "property") {
        TextStyle::rgb(224, 108, 117)
    } else if str_eq(name, "operator") {
        TextStyle::rgb(171, 178, 191)
    } else if str_eq(name, "punctuation") || str_eq(name, "punctuation.bracket") || str_eq(
        name,
        "punctuation.delimiter",
    ) {
        TextStyle::rgb(171, 178, 191)
    } else if str_eq(name, "punctuation.special") {
        TextStyle::rgb(198, 120, 221)
    } else if str_eq(name, "constructor") {
        TextStyle { red: 229, green: 192, blue: 123, bold: true, italic: false }
    } else if str_eq(name, "tag") {
        TextStyle::rgb(224, 108, 117)
    } else if str_eq(name, "attribute") {
        TextStyle::rgb(209, 154, 102)
    } else if str_eq(name, "escape") {
        TextStyle::rgb(86, 182, 194)
    } else if str_eq(name, "embedded") {
        TextStyle::rgb(198, 120, 221)
    } else {
        TextStyle::rgb(171, 178, 191)
    }
}

/// The highlight categories the engine is configured to recognize; a
/// category index in its output refers into this list.
pub open spec fn spec_highlight_names() -> Seq<Seq<char>> {
    seq![
        "attribute"@,
        "comment"@,
        "constant"@,
        "constant.builtin"@,
        "constructor"@,
        "function"@,
        "function.builtin"@,
        "function.method"@,
        "keyword"@,
        "label"@,
        "number"@,
        "operator"@,
        "property"@,
        "punctuation"@,
        "punctuation.bracket"@,
        "punctuation.delimiter"@,
        "punctuation.special"@,
        "string"@,
        "string.special"@,
        "tag"@,
        "type"@,
        "type.builtin"@,
        "variable"@,
        "variable.builtin"@,
        "variable.parameter"@,
        "escape"@,
        "embedded"@,
    ]
}

/// Build the list of recognized highlight categories.
pub fn highlight_names() -> (r: Vec<&'static str>)
    ensures
        r@.len() == spec_highlight_names().len(),
        forall|i: int| 0 <= i < r@.len() ==> r@[i]@ == spec_highlight_names()[i],
{
    let mut v: Vec<&'static str> = Vec::new();
    v.push("attribute");
    v.push("comment");
    v.push("constant");
    v.push("constant.builtin");
    v.push("constructor");
    v.push("function");
    v.push("function.builtin");
    v.push("function.method");
    v.push("keyword");
    v.push("label");
    v.push("number");
    v.push("operator");
    v.push("property");
    v.push("punctuation");
    v.push("punctuation.bracket");
    v.push("punctuation.delimiter");
    v.push("punctuation.special");
    v.push("string");
    v.push("string.special");
    v.push("tag");
    v.push("type");
    v.push("type.builtin");
    v.push("variable");
    v.push("variable.builtin");
    v.push("variable.parameter");
    v.push("escape");
    v.push("embedded");
    v
}

} // verus!
