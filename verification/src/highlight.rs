//! Line-granularity syntax-highlight cache.
//!
//! The cache maps line indices to styled segments and keeps itself
//! consistent under edits through explicit invalidation. It is bounded:
//! when it reaches capacity, the least recently used fifth of its entries
//! is evicted. A language or default-style change clears it wholesale.
//! When no language is active or the engine fails, a line degrades to a
//! single segment in the default style — never to an error.

use vstd::prelude::*;

use crate::engine::{Highlighter, HlEvent};
use crate::language::Language;
use crate::style::{spec_style_for_highlight, style_for_highlight, TextStyle};

verus! {

/// Maximum number of cached lines.
pub const MAX_CACHE_SIZE: usize = 2000;

/// How many entries one eviction pass removes: a fifth of the capacity.
pub const EVICT_COUNT: usize = MAX_CACHE_SIZE / 5;

/// A highlighted text segment: a run of text sharing one display style.
#[derive(Debug)]
pub struct Segment {
    pub text: String,
    pub style: TextStyle,
}

/// A segment as a mathematical value: its text and its style.
pub open spec fn seg_view(s: Segment) -> (Seq<char>, TextStyle) {
    (s.text@, s.style)
}

/// A segment list as a sequence of (text, style) pairs.
pub open spec fn segs_view(segs: Seq<Segment>) -> Seq<(Seq<char>, TextStyle)> {
    segs.map_values(|s: Segment| seg_view(s))
}

/// The style a category index maps to: the category's name looked up in
/// the configured list, unknown indices treated as an unnamed category.
pub open spec fn category_style(names: Seq<Seq<char>>, idx: int) -> TextStyle {
    if 0 <= idx < names.len() {
        spec_style_for_highlight(names[idx])
    } else {
        spec_style_for_highlight(Seq::<char>::empty())
    }
}

/// The segments an event stream folds into, given the text and style
/// accumulated so far: text runs extend the current segment, and a
/// category opening or closing finishes it and switches the style.
pub open spec fn spec_segments(
    events: Seq<HlEvent>,
    names: Seq<Seq<char>>,
    default: TextStyle,
    cur_text: Seq<char>,
    cur_style: TextStyle,
) -> Seq<(Seq<char>, TextStyle)>
    decreases events.len(),
{
    if events.len() == 0 {
        if cur_text.len() == 0 {
            Seq::empty()
        } else {
            seq![(cur_text, cur_style)]
        }
    } else {
        let rest = events.drop_first();
        match events[0] {
            HlEvent::Text(t) => spec_segments(rest, names, default, cur_text + t@, cur_style),
            HlEvent::Start(idx) => {
                let ns = category_style(names, idx as int);
                if cur_text.len() == 0 {
                    spec_segments(rest, names, default, cur_text, ns)
                } else {
                    seq![(cur_text, cur_style)] + spec_segments(
                        rest,
                        names,
                        default,
                        Seq::empty(),
                        ns,
                    )
                }
            },
            HlEvent::End => {
                if cur_text.len() == 0 {
                    spec_segments(rest, names, default, cur_text, default)
                } else {
                    seq![(cur_text, cur_style)] + spec_segments(
                        rest,
                        names,
                        default,
                        Seq::empty(),
                        default,
                    )
                }
            },
        }
    }
}

/// What a line's segments are: the folded event stream, or — when it
/// folds to nothing — the whole line as one segment in the default style.
pub open spec fn spec_line_segments(
    events: Seq<HlEvent>,
    names: Seq<Seq<char>>,
    default: TextStyle,
    line: Seq<char>,
) -> Seq<(Seq<char>, TextStyle)> {
    let body = spec_segments(events, names, default, Seq::empty(), default);
    if body.len() == 0 {
        seq![(line, default)]
    } else {
        body
    }
}

/// A single segment holding the whole line in the given style.
pub open spec fn spec_plain_line(line: Seq<char>, style: TextStyle) -> Seq<
    (Seq<char>, TextStyle),
> {
    seq![(line, style)]
}

/// Build one whole-line segment in the given style.
fn plain_line(line_text: &str, style: TextStyle) -> (r: Vec<Segment>)
    ensures
        segs_view(r@) == spec_plain_line(line_text@, style),
{
    let mut out: Vec<Segment> = Vec::new();
    out.push(Segment { text: line_text.to_owned(), style });
    proof {
        assert(segs_view(out@) =~= spec_plain_line(line_text@, style));
    }
    out
}

/// Fold an engine event stream into styled segments; see
/// [`spec_line_segments`].
pub fn build_segments(
    events: &Vec<HlEvent>,
    names: &Vec<&'static str>,
    default: TextStyle,
    line_text: &str,
) -> (r: Vec<Segment>)
    ensures
        segs_view(r@) == spec_line_segments(
            events@,
            names@.map_values(|s: &'static str| s@),
            default,
            line_text@,
        ),
{
    let ghost names_v = names@.map_values(|s: &'static str| s@);
    let mut out: Vec<Segment> = Vec::new();
    let mut cur_text = String::new();
    let mut cur_style = default;
    proof {
        assert(events@.subrange(0, events@.len() as int) =~= events@);
        assert(segs_view(out@) =~= Seq::<(Seq<char>, TextStyle)>::empty());
        assert(segs_view(out@) + spec_segments(
            events@,
            names_v,
            default,
            cur_text@,
            cur_style,
        ) =~= spec_segments(events@, names_v, default, cur_text@, cur_style));
    }
    let mut i: usize = 0;
    while i < events.len()
        invariant
            i <= events@.len(),
            names_v == names@.map_values(|s: &'static str| s@),
            spec_segments(events@, names_v, default, Seq::<char>::empty(), default) == segs_view(
                out@,
            ) + spec_segments(events@.subrange(i as int, events@.len() as int), names_v, default, cur_text@, cur_style),
        decreases events@.len() - i,
    {
        let ghost rest = events@.subrange(i as int, events@.len() as int);
        proof {
            assert(rest[0] == events@[i as int]);
            assert(rest.drop_first() =~= events@.subrange(i + 1, events@.len() as int));
        }
        match &events[i] {
            HlEvent::Text(t) => {
                cur_text.append(t.as_str());
            },
            HlEvent::Start(idx) => {
                let name: &str = if *idx < names.len() {
                    names[*idx]
                } else {
                    ""
                };
                let ns = style_for_highlight(name);
                proof {
                    if *idx < names@.len() {
                        assert(names_v[*idx as int] == names@[*idx as int]@);
                    } else {
                        reveal_strlit("");
                        assert(""@ =~= Seq::<char>::empty());
                    }
                }
                if cur_text.as_str().unicode_len() != 0 {
                    let finished = Segment { text: cur_text, style: cur_style };
                    proof {
                        assert(segs_view(out@.push(finished)) =~= segs_view(out@).push(
                            seg_view(finished),
                        ));
                    }
                    out.push(finished);
                    cur_text = String::new();
                }
                cur_style = ns;
            },
            HlEvent::End => {
                if cur_text.as_str().unicode_len() != 0 {
                    let finished = Segment { text: cur_text, style: cur_style };
                    proof {
                        assert(segs_view(out@.push(finished)) =~= segs_view(out@).push(
                            seg_view(finished),
                        ));
                    }
                    out.push(finished);
                    cur_text = String::new();
                }
                cur_style = default;
            },
        }
        i = i + 1;
    }
    proof {
        assert(events@.subrange(events@.len() as int, events@.len() as int) =~= Seq::<
            HlEvent,
        >::empty());
    }
    if cur_text.as_str().unicode_len() != 0 {
        let finished = Segment { text: cur_text, style: cur_style };
        proof {
            assert(segs_view(out@.push(finished)) =~= segs_view(out@).push(seg_view(finished)));
        }
        out.push(finished);
    }
    if out.len() == 0 {
        plain_line(line_text, default)
    } else {
        out
    }
}

/// One cached line: its index, its access rank for LRU eviction, and its
/// styled segments.
pub struct CacheEntry {
    pub line: usize,
    pub atime: u64,
    pub segments: Vec<Segment>,
}

/// No two entries cache the same line.
pub open spec fn distinct_lines(c: Seq<CacheEntry>) -> bool {
    forall|i: int, j: int| 0 <= i < j < c.len() ==> c[i].line != c[j].line
}

/// Some entry caches the line.
pub open spec fn has_line(c: Seq<CacheEntry>, line: usize) -> bool {
    exists|i: int| 0 <= i < c.len() && c[i].line == line
}

/// The entries with the given line's entry dropped.
pub open spec fn drop_line(c: Seq<CacheEntry>, line: usize) -> Seq<CacheEntry>
    decreases c.len(),
{
    if c.len() == 0 {
        c
    } else {
        let rest = drop_line(c.drop_first(), line);
        if c[0].line == line {
            rest
        } else {
            seq![c[0]] + rest
        }
    }
}

/// The entries with every line at or past `start` dropped.
pub open spec fn drop_from(c: Seq<CacheEntry>, start: usize) -> Seq<CacheEntry>
    decreases c.len(),
{
    if c.len() == 0 {
        c
    } else {
        let rest = drop_from(c.drop_first(), start);
        if c[0].line >= start {
            rest
        } else {
            seq![c[0]] + rest
        }
    }
}

/// The position of the least recently used entry: the first one with the
/// smallest access rank.
pub open spec fn min_atime_idx(c: Seq<CacheEntry>) -> int
    decreases c.len(),
{
    if c.len() <= 1 {
        0
    } else {
        let m = min_atime_idx(c.drop_last());
        if c.last().atime < c[m].atime {
            c.len() - 1
        } else {
            m
        }
    }
}

proof fn lemma_min_atime_idx_bounds(c: Seq<CacheEntry>)
    requires
        c.len() >= 1,
    ensures
        0 <= min_atime_idx(c) < c.len(),
    decreases c.len(),
{
    if c.len() > 1 {
        lemma_min_atime_idx_bounds(c.drop_last());
    }
}

/// Law (eviction policy): the entry an eviction step selects has an
/// access rank no larger than any other entry's, so nothing recently
/// used leaves before everything older.
pub proof fn lemma_min_atime_is_min(c: Seq<CacheEntry>)
    requires
        c.len() >= 1,
    ensures
        forall|i: int| 0 <= i < c.len() ==> c[min_atime_idx(c)].atime <= #[trigger] c[i].atime,
    decreases c.len(),
{
    if c.len() > 1 {
        let d = c.drop_last();
        lemma_min_atime_is_min(d);
        lemma_min_atime_idx_bounds(d);
        lemma_min_atime_idx_bounds(c);
        let m = min_atime_idx(c);
        let mp = min_atime_idx(d);
        assert(d[mp] == c[mp]);
        assert forall|i: int| 0 <= i < c.len() implies c[m].atime <= #[trigger] c[i].atime by {
            if i < c.len() - 1 {
                assert(d[i] == c[i]);
                assert(d[mp].atime <= d[i].atime);
            }
        }
    }
}

/// The entries after removing the `k` least recently used ones, one at a
/// time.
pub open spec fn remove_oldest(c: Seq<CacheEntry>, k: nat) -> Seq<CacheEntry>
    decreases k,
{
    if k == 0 || c.len() == 0 {
        c
    } else {
        remove_oldest(c.remove(min_atime_idx(c)), (k - 1) as nat)
    }
}

proof fn lemma_remove_keeps_lines(c: Seq<CacheEntry>, i: int)
    requires
        0 <= i < c.len(),
        distinct_lines(c),
    ensures
        distinct_lines(c.remove(i)),
        forall|l: usize| has_line(c.remove(i), l) ==> has_line(c, l),
{
    let r = c.remove(i);
    assert forall|a: int, b: int| 0 <= a < b < r.len() implies r[a].line != r[b].line by {
        assert(r[a] == if a < i {
            c[a]
        } else {
            c[a + 1]
        });
        assert(r[b] == if b < i {
            c[b]
        } else {
            c[b + 1]
        });
    }
    assert forall|l: usize| has_line(r, l) implies has_line(c, l) by {
        let w = choose|w: int| 0 <= w < r.len() && r[w].line == l;
        assert(r[w] == if w < i {
            c[w]
        } else {
            c[w + 1]
        });
    }
}

proof fn lemma_remove_oldest_lines(c: Seq<CacheEntry>, k: nat)
    requires
        distinct_lines(c),
    ensures
        distinct_lines(remove_oldest(c, k)),
        forall|l: usize| has_line(remove_oldest(c, k), l) ==> has_line(c, l),
    decreases k,
{
    if k > 0 && c.len() > 0 {
        lemma_min_atime_idx_bounds(c);
        lemma_remove_keeps_lines(c, min_atime_idx(c));
        lemma_remove_oldest_lines(c.remove(min_atime_idx(c)), (k - 1) as nat);
    }
}

/// The entries with entry `k` moved to the back, its access rank
/// refreshed to `t`.
pub open spec fn bumped(c: Seq<CacheEntry>, k: int, t: u64) -> Seq<CacheEntry> {
    c.remove(k).push(CacheEntry { line: c[k].line, atime: t, segments: c[k].segments })
}

/// Line-based highlight cache for efficient rendering.
pub struct HighlightCache {
    entries: Vec<CacheEntry>,
    language: Option<Language>,
    default_style: TextStyle,
    access_counter: u64,
}

impl HighlightCache {
    /// The cached entries.
    pub closed spec fn spec_entries(&self) -> Seq<CacheEntry> {
        self.entries@
    }

    /// The active language, if any.
    pub closed spec fn spec_language(&self) -> Option<Language> {
        self.language
    }

    /// The style for unhighlighted text.
    pub closed spec fn spec_default_style(&self) -> TextStyle {
        self.default_style
    }

    /// The access counter behind the LRU ranks.
    pub closed spec fn spec_counter(&self) -> u64 {
        self.access_counter
    }

    /// Well-formedness: no line is cached twice.
    pub open spec fn wf(&self) -> bool {
        distinct_lines(self.spec_entries())
    }

    /// Create a new, empty highlight cache with no active language and a
    /// plain default style.
    pub fn new() -> (c: HighlightCache)
        ensures
            c.wf(),
            c.spec_entries() == Seq::<CacheEntry>::empty(),
            c.spec_language() is None,
            c.spec_default_style() == crate::style::spec_rgb(255, 255, 255),
            c.spec_counter() == 0,
    {
        HighlightCache {
            entries: Vec::new(),
            language: None,
            default_style: TextStyle::default_text(),
            access_counter: 0,
        }
    }

    /// Set the language for highlighting; switching to a different one
    /// invalidates the entire cache.
    pub fn set_language(&mut self, language: Option<Language>)
        requires
            old(self).wf(),
        ensures
            final(self).wf(),
            final(self).spec_language() == language,
            final(self).spec_default_style() == old(self).spec_default_style(),
            final(self).spec_counter() == old(self).spec_counter(),
            final(self).spec_entries() == if language == old(self).spec_language() {
                old(self).spec_entries()
            } else {
                Seq::<CacheEntry>::empty()
            },
    {
        let same = match (self.language, language) {
            (None, None) => true,
            (Some(a), Some(b)) => a == b,
            _ => false,
        };
        if !same {
            self.language = language;
            self.entries = Vec::new();
        }
    }

    /// Set the language from a file path's extension.
    pub fn set_language_from_path(&mut self, path: &str)
        requires
            old(self).wf(),
        ensures
            final(self).wf(),
            final(self).spec_language() == crate::language::spec_detect_language(path@),
            final(self).spec_default_style() == old(self).spec_default_style(),
            final(self).spec_counter() == old(self).spec_counter(),
            final(self).spec_entries() == if crate::language::spec_detect_language(path@) == old(
                self,
            ).spec_language() {
                old(self).spec_entries()
            } else {
                Seq::<CacheEntry>::empty()
            },
    {
        let language = crate::language::detect_language(path);
        self.set_language(language);
    }

    /// Set the default style for unhighlighted text; changing it
    /// invalidates the entire cache.
    pub fn set_default_style(&mut self, style: TextStyle)
        requires
            old(self).wf(),
        ensures
            final(self).wf(),
            final(self).spec_language() == old(self).spec_language(),
            final(self).spec_default_style() == style,
            final(self).spec_counter() == old(self).spec_counter(),
            final(self).spec_entries() == if style == old(self).spec_default_style() {
                old(self).spec_entries()
            } else {
                Seq::<CacheEntry>::empty()
            },
    {
        if !(self.default_style == style) {
            self.default_style = style;
            self.entries = Vec::new();
        }
    }

    /// Drop exactly the given line's entry.
    pub fn invalidate_line(&mut self, line_idx: usize)
        requires
            old(self).wf(),
        ensures
            final(self).wf(),
            final(self).spec_entries() == drop_line(old(self).spec_entries(), line_idx),
            !has_line(final(self).spec_entries(), line_idx),
            final(self).spec_language() == old(self).spec_language(),
            final(self).spec_default_style() == old(self).spec_default_style(),
            final(self).spec_counter() == old(self).spec_counter(),
    {
        let ghost c0 = self.entries@;
        let n = self.entries.len();
        let mut i: usize = n;
        while i > 0
            invariant
                i <= n,
                n == c0.len(),
                self.entries@ == c0.subrange(0, i as int) + drop_line(
                    c0.subrange(i as int, n as int),
                    line_idx,
                ),
                self.language == old(self).language,
                self.default_style == old(self).default_style,
                self.access_counter == old(self).access_counter,
            decreases i,
        {
            i = i - 1;
            proof {
                assert(c0.subrange(i as int, n as int)[0] == c0[i as int]);
                assert(c0.subrange(i as int, n as int).drop_first() =~= c0.subrange(
                    i + 1,
                    n as int,
                ));
            }
            let l = self.entries[i].line;
            if l == line_idx {
                let _removed_entry = self.entries.remove(i);
                proof {
                    assert(self.entries@ =~= c0.subrange(0, i as int) + drop_line(
                        c0.subrange(i as int, n as int),
                        line_idx,
                    ));
                }
            } else {
                proof {
                    assert(self.entries@ =~= c0.subrange(0, i as int) + (seq![c0[i as int]]
                        + drop_line(c0.subrange(i + 1, n as int), line_idx)));
                }
            }
        }
        proof {
            assert(c0.subrange(0, n as int) =~= c0);
            assert(self.entries@ =~= drop_line(c0, line_idx));
            lemma_drop_line_lines(c0, line_idx);
        }
    }

    /// Drop every cached entry for lines at or past `start`; used after an
    /// edit that can shift every following line.
    pub fn invalidate_from(&mut self, start_line: usize)
        requires
            old(self).wf(),
        ensures
            final(self).wf(),
            final(self).spec_entries() == drop_from(old(self).spec_entries(), start_line),
            forall|l: usize| l >= start_line ==> !has_line(final(self).spec_entries(), l),
            final(self).spec_language() == old(self).spec_language(),
            final(self).spec_default_style() == old(self).spec_default_style(),
            final(self).spec_counter() == old(self).spec_counter(),
    {
        let ghost c0 = self.entries@;
        let n = self.entries.len();
        let mut i: usize = n;
        while i > 0
            invariant
                i <= n,
                n == c0.len(),
                self.entries@ == c0.subrange(0, i as int) + drop_from(
                    c0.subrange(i as int, n as int),
                    start_line,
                ),
                self.language == old(self).language,
                self.default_style == old(self).default_style,
                self.access_counter == old(self).access_counter,
            decreases i,
        {
            i = i - 1;
            proof {
                assert(c0.subrange(i as int, n as int)[0] == c0[i as int]);
                assert(c0.subrange(i as int, n as int).drop_first() =~= c0.subrange(
                    i + 1,
                    n as int,
                ));
            }
            let l = self.entries[i].line;
            if l >= start_line {
                let _removed_entry = self.entries.remove(i);
                proof {
                    assert(self.entries@ =~= c0.subrange(0, i as int) + drop_from(
                        c0.subrange(i as int, n as int),
                        start_line,
                    ));
                }
            } else {
                proof {
                    assert(self.entries@ =~= c0.subrange(0, i as int) + (seq![c0[i as int]]
                        + drop_from(c0.subrange(i + 1, n as int), start_line)));
                }
            }
        }
        proof {
            assert(c0.subrange(0, n as int) =~= c0);
            assert(self.entries@ =~= drop_from(c0, start_line));
            lemma_drop_from_lines(c0, start_line);
        }
    }

    /// Clear the entire cache; used on language or style change.
    pub fn invalidate_all(&mut self)
        ensures
            final(self).wf(),
            final(self).spec_entries() == Seq::<CacheEntry>::empty(),
            final(self).spec_language() == old(self).spec_language(),
            final(self).spec_default_style() == old(self).spec_default_style(),
            final(self).spec_counter() == old(self).spec_counter(),
    {
        self.entries = Vec::new();
    }

    /// Check if highlighting is active.
    pub fn has_highlighting(&self) -> (r: bool)
        ensures
            r == (self.spec_language() is Some),
    {
        self.language.is_some()
    }

    /// Get the current language.
    pub fn current_language(&self) -> (r: Option<Language>)
        ensures
            r == self.spec_language(),
    {
        self.language
    }

    /// Evict the least recently used fifth of the entries; nothing
    /// happens when the cache holds no more entries than one pass would
    /// remove.
    fn evict_lru(&mut self)
        requires
            old(self).wf(),
        ensures
            final(self).wf(),
            final(self).spec_entries() == if old(self).spec_entries().len() <= EVICT_COUNT {
                old(self).spec_entries()
            } else {
                remove_oldest(old(self).spec_entries(), EVICT_COUNT as nat)
            },
            forall|l: usize|
                has_line(final(self).spec_entries(), l) ==> has_line(old(self).spec_entries(), l),
            final(self).spec_language() == old(self).spec_language(),
            final(self).spec_default_style() == old(self).spec_default_style(),
            final(self).spec_counter() == old(self).spec_counter(),
    {
        let ghost c0 = self.entries@;
        if self.entries.len() <= EVICT_COUNT {
            return;
        }
        let mut k: usize = 0;
        while k < EVICT_COUNT
            invariant
                k <= EVICT_COUNT,
                self.entries@.len() == c0.len() - k,
                c0.len() > EVICT_COUNT,
                distinct_lines(self.entries@),
                forall|l: usize| has_line(self.entries@, l) ==> has_line(c0, l),
                remove_oldest(c0, EVICT_COUNT as nat) == remove_oldest(
                    self.entries@,
                    (EVICT_COUNT - k) as nat,
                ),
                self.language == old(self).language,
                self.default_style == old(self).default_style,
                self.access_counter == old(self).access_counter,
            decreases EVICT_COUNT - k,
        {
            let ghost cur = self.entries@;
            let n = self.entries.len();
            // find the least recently used entry
            let mut best: usize = 0;
            let mut j: usize = 1;
            while j < n
                invariant
                    1 <= j <= n,
                    n == self.entries@.len(),
                    n >= 1,
                    best < j,
                    best == min_atime_idx(self.entries@.subrange(0, j as int)),
                decreases n - j,
            {
                proof {
                    assert(self.entries@.subrange(0, j + 1).drop_last() =~= self.entries@.subrange(
                        0,
                        j as int,
                    ));
                    assert(self.entries@.subrange(0, j + 1).last() == self.entries@[j as int]);
                }
                if self.entries[j].atime < self.entries[best].atime {
                    best = j;
                }
                j = j + 1;
            }
            proof {
                assert(self.entries@.subrange(0, n as int) =~= self.entries@);
                lemma_min_atime_idx_bounds(self.entries@);
                lemma_remove_keeps_lines(self.entries@, best as int);
            }
            let _evicted_entry = self.entries.remove(best);
            k = k + 1;
        }
    }

    /// Get the highlighted segments for a line: the cached ones if
    /// present (refreshing their access rank), otherwise computed through
    /// the tokenizing engine, cached — evicting first if the cache is
    /// full — and returned. Without an active language, or when the
    /// engine cannot handle the line, the whole line comes back as one
    /// segment in the default style.
    pub fn get_line(&mut self, hl: &Highlighter, line_idx: usize, line_text: &str) -> (r: &Vec<
        Segment,
    >)
        requires
            old(self).wf(),
            hl.wf(),
        ensures
            final(self).wf(),
            final(self).spec_language() == old(self).spec_language(),
            final(self).spec_default_style() == old(self).spec_default_style(),
            final(self).spec_counter() == if old(self).spec_counter() < u64::MAX {
                old(self).spec_counter() + 1
            } else {
                old(self).spec_counter() as int
            },
            has_line(final(self).spec_entries(), line_idx),
            final(self).spec_entries().len() >= 1,
            final(self).spec_entries().last().line == line_idx,
            r@ == final(self).spec_entries().last().segments@,
            has_line(old(self).spec_entries(), line_idx) ==> (exists|k: int|
                0 <= k < old(self).spec_entries().len() && old(self).spec_entries()[k].line
                    == line_idx && final(self).spec_entries() == bumped(
                    old(self).spec_entries(),
                    k,
                    final(self).spec_counter(),
                )),
            !has_line(old(self).spec_entries(), line_idx) ==> {
                let base = if old(self).spec_entries().len() >= MAX_CACHE_SIZE {
                    remove_oldest(old(self).spec_entries(), EVICT_COUNT as nat)
                } else {
                    old(self).spec_entries()
                };
                &&& final(self).spec_entries().drop_last() == base
                &&& final(self).spec_entries().last().atime == final(self).spec_counter()
                &&& r@.len() >= 1
                &&& segs_view(r@) == (match old(self).spec_language() {
                    None => spec_plain_line(line_text@, old(self).spec_default_style()),
                    Some(l) => if hl.has_lang(l) {
                        match crate::engine::config_tokens(hl.spec_config(l), line_text@) {
                            Some(es) => spec_line_segments(
                                es,
                                hl.spec_names(),
                                old(self).spec_default_style(),
                                line_text@,
                            ),
                            None => spec_plain_line(line_text@, old(self).spec_default_style()),
                        }
                    } else {
                        spec_plain_line(line_text@, old(self).spec_default_style())
                    },
                })
            },
    {
        if self.access_counter < u64::MAX {
            self.access_counter = self.access_counter + 1;
        }
        let new_t = self.access_counter;
        let ghost c0 = self.entries@;
        // a cache hit only refreshes the access rank
        let n = self.entries.len();
        let mut k: usize = 0;
        while k < n
            invariant
                k <= n,
                c0 == old(self).entries@,
                self.entries@ == c0,
                n == c0.len(),
                distinct_lines(c0),
                self.language == old(self).language,
                self.default_style == old(self).default_style,
                self.access_counter == new_t,
                new_t == if old(self).access_counter < u64::MAX {
                    old(self).access_counter + 1
                } else {
                    old(self).access_counter as int
                },
                forall|j: int| 0 <= j < k ==> c0[j].line != line_idx,
            decreases n - k,
        {
            let l = self.entries[k].line;
            if l == line_idx {
                let mut hit = self.entries.remove(k);
                hit.atime = new_t;
                self.entries.push(hit);
                proof {
                    lemma_remove_keeps_lines(c0, k as int);
                    assert(hit == (CacheEntry {
                        line: c0[k as int].line,
                        atime: new_t,
                        segments: c0[k as int].segments,
                    }));
                    assert(self.entries@ == bumped(c0, k as int, new_t));
                    let m = self.entries@.len();
                    assert(self.entries@[m - 1].line == line_idx);
                    assert forall|a: int, b: int|
                        0 <= a < b < m implies self.entries@[a].line != self.entries@[b].line by {
                        let base = c0.remove(k as int);
                        if b == m - 1 {
                            assert(self.entries@[a] == base[a]);
                            assert(has_line(base, base[a].line));
                        } else {
                            assert(self.entries@[a] == base[a]);
                            assert(self.entries@[b] == base[b]);
                        }
                    }
                }
                proof {
                    assert(0 <= k < old(self).spec_entries().len());
                    assert(old(self).spec_entries()[k as int].line == line_idx);
                    assert(self.entries@ == bumped(old(self).spec_entries(), k as int, new_t));
                    assert(self.spec_entries() == bumped(
                        old(self).spec_entries(),
                        k as int,
                        self.spec_counter(),
                    ));
                    assert(exists|kk: int|
                        0 <= kk < old(self).spec_entries().len() && old(
                            self,
                        ).spec_entries()[kk].line == line_idx && self.spec_entries() == bumped(
                            old(self).spec_entries(),
                            kk,
                            self.spec_counter(),
                        ));
                }
                let last = self.entries.len() - 1;
                return &self.entries[last].segments;
            }
            k = k + 1;
        }
        // a miss computes the segments, evicting first when full
        let segments = match self.language {
            None => plain_line(line_text, self.default_style),
            Some(language) => match hl.tokenize_line(language, line_text) {
                Some(events) => {
                    let segs = build_segments(
                        &events,
                        hl.highlight_names(),
                        self.default_style,
                        line_text,
                    );
                    proof {
                        assert(hl.has_lang(language));
                        assert(crate::engine::config_tokens(hl.spec_config(language), line_text@)
                            == Some(events@));
                        assert(spec_line_segments(
                            events@,
                            hl.spec_names(),
                            self.default_style,
                            line_text@,
                        ).len() >= 1);
                    }
                    segs
                },
                None => plain_line(line_text, self.default_style),
            },
        };
        proof {
            assert(segs_view(segments@).len() == segments@.len());
        }
        if self.entries.len() >= MAX_CACHE_SIZE {
            self.evict_lru();
        }
        let fresh = CacheEntry { line: line_idx, atime: new_t, segments };
        proof {
            let base = self.entries@;
            assert forall|a: int, b: int|
                0 <= a < b < base.push(fresh).len() implies base.push(fresh)[a].line != base.push(
                fresh,
            )[b].line by {
                if b == base.push(fresh).len() - 1 {
                    assert(base.push(fresh)[a] == base[a]);
                    assert(has_line(base, base[a].line));
                    assert(has_line(c0, base[a].line));
                }
            }
        }
        self.entries.push(fresh);
        proof {
            assert(self.entries@.last() == fresh);
            assert(self.entries@.drop_last() =~= self.entries@.subrange(
                0,
                self.entries@.len() - 1,
            ));
            let m = self.entries@.len();
            assert(self.entries@[m - 1].line == line_idx);
        }
        let last = self.entries.len() - 1;
        &self.entries[last].segments
    }
}

proof fn lemma_drop_line_lines(c: Seq<CacheEntry>, line: usize)
    requires
        distinct_lines(c),
    ensures
        distinct_lines(drop_line(c, line)),
        !has_line(drop_line(c, line), line),
        forall|l: usize| has_line(drop_line(c, line), l) ==> has_line(c, l),
    decreases c.len(),
{
    if c.len() > 0 {
        assert(forall|i: int|
            0 <= i < c.drop_first().len() ==> c.drop_first()[i] == c[i + 1]);
        lemma_drop_line_lines(c.drop_first(), line);
        assert forall|l: usize| has_line(c.drop_first(), l) implies has_line(c, l) by {
            let w = choose|w: int| 0 <= w < c.drop_first().len() && c.drop_first()[w].line == l;
            assert(c[w + 1].line == l);
        }
        let rest = drop_line(c.drop_first(), line);
        if c[0].line != line {
            let r = seq![c[0]] + rest;
            assert forall|l: usize| has_line(r, l) implies has_line(c, l) by {
                let w = choose|w: int| 0 <= w < r.len() && r[w].line == l;
                if w == 0 {
                    assert(c[0].line == l);
                } else {
                    assert(rest[w - 1].line == l);
                    assert(has_line(c.drop_first(), l));
                }
            }
            assert forall|a: int, b: int| 0 <= a < b < r.len() implies r[a].line != r[b].line by {
                if a == 0 {
                    assert(has_line(c.drop_first(), r[b].line));
                    let w = choose|w: int|
                        0 <= w < c.drop_first().len() && c.drop_first()[w].line == r[b].line;
                    assert(c[w + 1].line == r[b].line);
                }
            }
        }
    }
}

proof fn lemma_drop_from_lines(c: Seq<CacheEntry>, start: usize)
    requires
        distinct_lines(c),
    ensures
        distinct_lines(drop_from(c, start)),
        forall|l: usize| l >= start ==> !has_line(drop_from(c, start), l),
        forall|l: usize| has_line(drop_from(c, start), l) ==> has_line(c, l),
    decreases c.len(),
{
    if c.len() > 0 {
        assert(forall|i: int|
            0 <= i < c.drop_first().len() ==> c.drop_first()[i] == c[i + 1]);
        lemma_drop_from_lines(c.drop_first(), start);
        assert forall|l: usize| has_line(c.drop_first(), l) implies has_line(c, l) by {
            let w = choose|w: int| 0 <= w < c.drop_first().len() && c.drop_first()[w].line == l;
            assert(c[w + 1].line == l);
        }
        let rest = drop_from(c.drop_first(), start);
        if c[0].line < start {
            let r = seq![c[0]] + rest;
            assert forall|l: usize| has_line(r, l) implies has_line(c, l) by {
                let w = choose|w: int| 0 <= w < r.len() && r[w].line == l;
                if w == 0 {
                    assert(c[0].line == l);
                } else {
                    assert(rest[w - 1].line == l);
                    assert(has_line(c.drop_first(), l));
                }
            }
            assert forall|a: int, b: int| 0 <= a < b < r.len() implies r[a].line != r[b].line by {
                if a == 0 {
                    assert(has_line(c.drop_first(), r[b].line));
                    let w = choose|w: int|
                        0 <= w < c.drop_first().len() && c.drop_first()[w].line == r[b].line;
                    assert(c[w + 1].line == r[b].line);
                }
            }
            assert forall|l: usize| l >= start implies !has_line(r, l) by {
                if has_line(r, l) {
                    let w = choose|w: int| 0 <= w < r.len() && r[w].line == l;
                    if w > 0 {
                        assert(rest[w - 1].line == l);
                        assert(has_line(rest, l));
                    }
                }
            }
        }
    }
}

} // verus!
