//! Core of a small terminal text editor: a text buffer with
//! offset/line/column conversions, cursor and selection algebra,
//! an editor composing the two with a scroll viewport, language
//! detection, and a line-granularity syntax-highlight cache with
//! LRU eviction.

pub mod buffer;
pub mod clipboard;
pub mod cursor;
pub mod editor;
pub mod engine;
pub mod highlight;
pub mod language;
pub mod rope;
pub mod strutil;
pub mod style;
pub mod text;
