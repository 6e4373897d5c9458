//! The first two layers of the extraction pipeline: the strict label parser
//! and the heuristic salvage parser. Each is a pure function from raw model
//! text to a tagged outcome: an extracted triple, or a rejection reason that
//! only the orchestration layer consumes.

use vstd::prelude::*;
use crate::format::{format_poem_lines, format_spec};
use crate::is_space_char;
use crate::text::{
    contains_spec, contains_sub, find_spec, find_sub, join_strs, join_with,
    lemma_find_from_bounds, lines_spec, split_lines, starts_ci_spec, starts_with_ci, take_chars,
    take_spec, trim_spec, trim_str, word_list, words_spec,
};

verus! {

/// Why a parsing layer rejected its input; consumed only by the pipeline's
/// orchestration to decide the next layer, never surfaced to a caller.
#[derive(Clone, Copy, Debug, PartialEq, Eq, Structural)]
pub enum RejectReason {
    /// Legacy bracket markers are present.
    OldMarkers,
    /// One of the three required labels is absent.
    MissingLabels,
    /// The labels do not occur in the required left-to-right order.
    LabelsOutOfOrder,
    /// A field between labels is empty after trimming.
    EmptySection,
    /// The title exceeds six whitespace-separated words.
    TitleTooLong,
    /// The trailing prompt is shorter than 50 or longer than 300 characters.
    NextPromptLength,
    /// Too little usable content for heuristic reconstruction.
    TooFewLines,
}

/// What a parsing layer produced.
#[derive(Clone, Debug)]
pub enum ParseOutcome {
    Extracted { poem: String, title: String, next_prompt: String },
    Rejected { reason: RejectReason },
}

/// The legacy bracket-delimited field format is present somewhere in `s`.
pub open spec fn has_old_markers_spec(s: Seq<char>) -> bool {
    contains_spec(s, "[POEM-START]"@) || contains_spec(s, "[POEM-END]"@) || contains_spec(
        s,
        "[TITLE-START]"@,
    ) || contains_spec(s, "[TITLE-END]"@) || contains_spec(s, "[NEXT-START]"@) || contains_spec(
        s,
        "[NEXT-END]"@,
    )
}

/// Whether the reply uses the legacy bracket marker format.
pub fn has_old_markers(response: &str) -> (r: bool)
    ensures
        r == has_old_markers_spec(response@),
{
    contains_sub(response, "[POEM-START]") || contains_sub(response, "[POEM-END]") || contains_sub(
        response,
        "[TITLE-START]",
    ) || contains_sub(response, "[TITLE-END]") || contains_sub(response, "[NEXT-START]")
        || contains_sub(response, "[NEXT-END]")
}

pub open spec fn poem_pos(s: Seq<char>) -> Option<int> {
    find_spec(s, "POEM:"@)
}

pub open spec fn title_pos(s: Seq<char>) -> Option<int> {
    find_spec(s, "TITLE:"@)
}

pub open spec fn next_pos(s: Seq<char>) -> Option<int> {
    find_spec(s, "NEXT:"@)
}

/// All three labels occur in `s`.
pub open spec fn labels_present(s: Seq<char>) -> bool {
    poem_pos(s) is Some && title_pos(s) is Some && next_pos(s) is Some
}

/// The first occurrences of the labels stand in the required order.
pub open spec fn labels_ordered(s: Seq<char>) -> bool {
    poem_pos(s)->0 < title_pos(s)->0 && title_pos(s)->0 < next_pos(s)->0
}

/// The poem field: the trimmed segment between `POEM:` and `TITLE:`.
pub open spec fn label_poem_raw(s: Seq<char>) -> Seq<char> {
    trim_spec(s.subrange(poem_pos(s)->0 + 5, title_pos(s)->0))
}

/// The title field: the trimmed segment between `TITLE:` and `NEXT:`.
pub open spec fn label_title_raw(s: Seq<char>) -> Seq<char> {
    trim_spec(s.subrange(title_pos(s)->0 + 6, next_pos(s)->0))
}

/// The next-prompt field: the trimmed segment after `NEXT:`.
pub open spec fn label_next_raw(s: Seq<char>) -> Seq<char> {
    trim_spec(s.skip(next_pos(s)->0 + 5))
}

/// Why the label parser rejects `s`, or `None` if it accepts, checked in
/// the layer's order: legacy markers, missing labels, label order, empty
/// fields, title length, next-prompt length.
pub open spec fn label_reject_spec(s: Seq<char>) -> Option<RejectReason> {
    if has_old_markers_spec(s) {
        Some(RejectReason::OldMarkers)
    } else if !labels_present(s) {
        Some(RejectReason::MissingLabels)
    } else if !labels_ordered(s) {
        Some(RejectReason::LabelsOutOfOrder)
    } else if label_poem_raw(s).len() == 0 || label_title_raw(s).len() == 0 || label_next_raw(
        s,
    ).len() == 0 {
        Some(RejectReason::EmptySection)
    } else if words_spec(label_title_raw(s)).len() > 6 {
        Some(RejectReason::TitleTooLong)
    } else if label_next_raw(s).len() < 50 || label_next_raw(s).len() > 300 {
        Some(RejectReason::NextPromptLength)
    } else {
        None
    }
}

/// Labels cannot overlap: the first character of a later label differs from
/// every character inside an earlier one, so an ordered later label starts
/// at or after the end of the earlier label.
proof fn lemma_label_gaps(s: Seq<char>)
    requires
        labels_present(s),
        labels_ordered(s),
    ensures
        poem_pos(s)->0 + 5 <= title_pos(s)->0,
        title_pos(s)->0 + 6 <= next_pos(s)->0,
        next_pos(s)->0 + 5 <= s.len(),
{
    reveal_strlit("POEM:");
    reveal_strlit("TITLE:");
    reveal_strlit("NEXT:");
    let pp = poem_pos(s)->0;
    let tp = title_pos(s)->0;
    let np = next_pos(s)->0;
    lemma_find_from_bounds(s, "POEM:"@, 0);
    lemma_find_from_bounds(s, "TITLE:"@, 0);
    lemma_find_from_bounds(s, "NEXT:"@, 0);
    if tp < pp + 5 {
        assert(s.subrange(tp, tp + 6)[0] == s[tp]);
        assert(s.subrange(pp, pp + 5)[tp - pp] == s[tp]);
        assert("POEM:"@[tp - pp] == 'T');
        assert(false);
    }
    if np < tp + 6 {
        assert(s.subrange(np, np + 5)[0] == s[np]);
        assert(s.subrange(tp, tp + 6)[np - tp] == s[np]);
        assert("TITLE:"@[np - tp] == 'N');
        assert(false);
    }
}

/// Layer 1, the strict label parser. Rejects any input carrying legacy
/// bracket markers; otherwise requires `POEM:`, `TITLE:` and `NEXT:` to be
/// present in that order, each field non-empty after trimming, the title at
/// most six words, and the next prompt 50 to 300 characters. On success the
/// poem is word-wrapped for display and the fields are returned trimmed.
pub fn parse_with_labels(response: &str) -> (r: ParseOutcome)
    ensures
        r is Extracted <==> label_reject_spec(response@) is None,
        r matches ParseOutcome::Rejected { reason } ==> label_reject_spec(response@) == Some(
            reason,
        ),
        r matches ParseOutcome::Extracted { poem, title, next_prompt } ==> {
            &&& poem@ == format_spec(label_poem_raw(response@))
            &&& title@ == label_title_raw(response@)
            &&& next_prompt@ == label_next_raw(response@)
        },
{
    if has_old_markers(response) {
        return ParseOutcome::Rejected { reason: RejectReason::OldMarkers };
    }
    let poem_at = find_sub(response, "POEM:");
    let title_at = find_sub(response, "TITLE:");
    let next_at = find_sub(response, "NEXT:");
    let (pp, tp, np) = match (poem_at, title_at, next_at) {
        (Some(pp), Some(tp), Some(np)) => (pp, tp, np),
        _ => {
            return ParseOutcome::Rejected { reason: RejectReason::MissingLabels };
        },
    };
    if tp <= pp || np <= tp {
        return ParseOutcome::Rejected { reason: RejectReason::LabelsOutOfOrder };
    }
    proof {
        lemma_label_gaps(response@);
    }
    let n = response.unicode_len();
    let poem = trim_str(response.substring_char(pp + 5, tp)).to_owned();
    let title = trim_str(response.substring_char(tp + 6, np)).to_owned();
    let next_prompt = trim_str(response.substring_char(np + 5, n)).to_owned();
    proof {
        assert(response@.subrange(np + 5, n as int) =~= response@.skip(np + 5));
    }
    if poem.as_str().unicode_len() == 0 || title.as_str().unicode_len() == 0
        || next_prompt.as_str().unicode_len() == 0 {
        return ParseOutcome::Rejected { reason: RejectReason::EmptySection };
    }
    if word_list(title.as_str()).len() > 6 {
        return ParseOutcome::Rejected { reason: RejectReason::TitleTooLong };
    }
    let next_len = next_prompt.as_str().unicode_len();
    if next_len < 50 || next_len > 300 {
        return ParseOutcome::Rejected { reason: RejectReason::NextPromptLength };
    }
    let poem = format_poem_lines(poem.as_str());
    ParseOutcome::Extracted { poem, title, next_prompt }
}

/// The trimmed text between a start marker and an end marker, or empty when
/// either marker is absent or they stand out of order.
pub open spec fn between_markers(s: Seq<char>, start_pat: Seq<char>, end_pat: Seq<char>) -> Seq<
    char,
> {
    match (find_spec(s, start_pat), find_spec(s, end_pat)) {
        (Some(a), Some(b)) => if a + start_pat.len() <= b {
            trim_spec(s.subrange(a + start_pat.len(), b))
        } else {
            Seq::empty()
        },
        _ => Seq::empty(),
    }
}

pub open spec fn salvage_poem(s: Seq<char>) -> Seq<char> {
    between_markers(s, "[POEM-START]"@, "[POEM-END]"@)
}

pub open spec fn salvage_title(s: Seq<char>) -> Seq<char> {
    between_markers(s, "[TITLE-START]"@, "[TITLE-END]"@)
}

pub open spec fn salvage_next(s: Seq<char>) -> Seq<char> {
    between_markers(s, "[NEXT-START]"@, "[NEXT-END]"@)
}

/// The heuristic layer salvages directly from legacy markers when they are
/// present and every salvaged field is non-empty.
pub open spec fn salvage_applies(s: Seq<char>) -> bool {
    has_old_markers_spec(s) && salvage_poem(s).len() > 0 && salvage_title(s).len() > 0
        && salvage_next(s).len() > 0
}

/// A title cut to its first six words when it has more.
pub open spec fn fix_title(t: Seq<char>) -> Seq<char> {
    if words_spec(t).len() > 6 {
        join_with(words_spec(t).take(6), " "@)
    } else {
        t
    }
}

/// The fixed sentence substituted when a repaired next prompt still falls
/// short of the 50-character floor.
pub open spec fn safe_next_prompt() -> Seq<char> {
    "Write about the static between disconnected thoughts in a digital void"@
}

/// The fixed line substituted when a reconstructed poem holds nothing but
/// whitespace.
pub open spec fn safe_poem() -> Seq<char> {
    "static hum where words dissolved"@
}

/// A repaired value is kept only when it still trims to at least 50
/// characters; otherwise the fixed sentence stands in, so the layer's
/// output is always in range.
pub open spec fn guard_next_spec(repaired: Seq<char>) -> Seq<char> {
    if trim_spec(repaired).len() < 50 {
        safe_next_prompt()
    } else {
        repaired
    }
}

/// A salvaged next prompt repaired into range: prefixed when too short,
/// truncated when too long, the fixed sentence when the repair still falls
/// short.
pub open spec fn fix_next_salvage(x: Seq<char>) -> Seq<char> {
    guard_next_spec(
        if x.len() < 50 {
            "Write about "@ + x
        } else if x.len() > 300 {
            x.take(300)
        } else {
            x
        },
    )
}

/// A reconstructed next prompt repaired into range: prefixed when too
/// short, truncated when too long, the fixed sentence when the repair
/// still falls short.
pub open spec fn fix_next_lines(x: Seq<char>) -> Seq<char> {
    guard_next_spec(
        if x.len() < 50 {
            "Write about the echoes of "@ + x
        } else if x.len() > 300 {
            x.take(300)
        } else {
            x
        },
    )
}

/// A formatted poem is kept only when it trims to something; otherwise the
/// fixed line stands in, so the layer's poem is never blank.
pub open spec fn fix_poem(f: Seq<char>) -> Seq<char> {
    if trim_spec(f).len() == 0 {
        safe_poem()
    } else {
        f
    }
}

/// Whatever the guard keeps or substitutes is 50 to 300 characters, before
/// and after trimming, provided the repaired value was at most 300.
pub proof fn lemma_guard_next_bounds(repaired: Seq<char>)
    requires
        repaired.len() <= 300,
    ensures
        50 <= guard_next_spec(repaired).len() <= 300,
        50 <= trim_spec(guard_next_spec(repaired)).len() <= 300,
{
    reveal_strlit("Write about the static between disconnected thoughts in a digital void");
    crate::text::lemma_trim_len(repaired);
    let s = safe_next_prompt();
    crate::text::lemma_trim_noop(s);
}

/// Both repair paths land in the 50-to-300 range, before and after
/// trimming.
pub proof fn lemma_fix_next_salvage_bounds(x: Seq<char>)
    ensures
        50 <= fix_next_salvage(x).len() <= 300,
        50 <= trim_spec(fix_next_salvage(x)).len() <= 300,
{
    reveal_strlit("Write about ");
    if x.len() < 50 {
        lemma_guard_next_bounds("Write about "@ + x);
    } else if x.len() > 300 {
        lemma_guard_next_bounds(x.take(300));
    } else {
        lemma_guard_next_bounds(x);
    }
}

pub proof fn lemma_fix_next_lines_bounds(x: Seq<char>)
    ensures
        50 <= fix_next_lines(x).len() <= 300,
        50 <= trim_spec(fix_next_lines(x)).len() <= 300,
{
    reveal_strlit("Write about the echoes of ");
    if x.len() < 50 {
        lemma_guard_next_bounds("Write about the echoes of "@ + x);
    } else if x.len() > 300 {
        lemma_guard_next_bounds(x.take(300));
    } else {
        lemma_guard_next_bounds(x);
    }
}

/// The guarded poem is non-empty, before and after trimming.
pub proof fn lemma_fix_poem_nonempty(f: Seq<char>)
    ensures
        fix_poem(f).len() > 0,
        trim_spec(fix_poem(f)).len() > 0,
{
    if trim_spec(f).len() == 0 {
        reveal_strlit("static hum where words dissolved");
        crate::text::lemma_trim_noop(safe_poem());
    } else {
        crate::text::lemma_trim_len(f);
    }
}

/// A title cut to six words really has at most six words.
pub proof fn lemma_fix_title_words(t: Seq<char>)
    ensures
        words_spec(fix_title(t)).len() <= 6,
{
    if words_spec(t).len() > 6 {
        crate::text::lemma_words_wellformed(t);
        let w6 = words_spec(t).take(6);
        assert forall|k: int| 0 <= k < w6.len() implies (#[trigger] w6[k]).len() > 0 by {
            assert(w6[k] == words_spec(t)[k]);
        }
        assert forall|k: int, j: int|
            0 <= k < w6.len() && 0 <= j < w6[k].len() implies !is_space_char(
            #[trigger] w6[k][j],
        ) by {
            assert(w6[k] == words_spec(t)[k]);
        }
        crate::text::lemma_words_join(w6);
    }
}

/// The fixed fallback title is a single word.
pub proof fn lemma_untitled_single_word()
    ensures
        words_spec("Untitled"@).len() == 1,
{
    reveal_strlit("Untitled");
    crate::text::lemma_single_word("Untitled"@);
}

/// Whatever title the line reconstruction settles on holds at most six
/// words.
pub proof fn lemma_heur_title_words(cl: Seq<Seq<char>>)
    ensures
        words_spec(heur_title_final(cl)).len() <= 6,
{
    let t = heur_title_raw(cl);
    if words_spec(t).len() > 6 {
        lemma_fix_title_words(t);
        assert(heur_title_final(cl) == fix_title(t));
    } else if t.len() == 0 {
        lemma_untitled_single_word();
    }
}

/// The usable lines of the reply: each line trimmed, dropping those that
/// are empty or begin with `[`.
pub open spec fn clean_lines(ls: Seq<Seq<char>>) -> Seq<Seq<char>>
    decreases ls.len(),
{
    if ls.len() == 0 {
        Seq::empty()
    } else {
        let t = trim_spec(ls[0]);
        let rest = clean_lines(ls.drop_first());
        if t.len() > 0 && t[0] != '[' {
            seq![t] + rest
        } else {
            rest
        }
    }
}

/// Every usable line is non-empty and begins with a non-whitespace
/// character other than `[`.
pub proof fn lemma_clean_lines_wf(ls: Seq<Seq<char>>)
    ensures
        forall|k: int|
            0 <= k < clean_lines(ls).len() ==> {
                let l = #[trigger] clean_lines(ls)[k];
                l.len() > 0 && !is_space_char(l[0]) && l[0] != '['
            },
    decreases ls.len(),
{
    if ls.len() == 0 {
    } else {
        let t = trim_spec(ls[0]);
        crate::text::lemma_trim_bounds(ls[0]);
        lemma_clean_lines_wf(ls.drop_first());
        let rest = clean_lines(ls.drop_first());
        if t.len() > 0 && t[0] != '[' {
            assert forall|k: int| 0 <= k < clean_lines(ls).len() implies {
                let l = #[trigger] clean_lines(ls)[k];
                l.len() > 0 && !is_space_char(l[0]) && l[0] != '['
            } by {
                if k == 0 {
                    assert(clean_lines(ls)[0] == t);
                } else {
                    assert(clean_lines(ls)[k] == rest[k - 1]);
                }
            }
        }
    }
}

/// Index of the last line beginning (case-insensitively) with `pat`.
pub open spec fn last_ci_idx(lines: Seq<Seq<char>>, pat: Seq<char>) -> Option<int>
    decreases lines.len(),
{
    if lines.len() == 0 {
        None
    } else if starts_ci_spec(lines.last(), pat) {
        Some(lines.len() - 1)
    } else {
        last_ci_idx(lines.drop_last(), pat)
    }
}

/// A found label-line index is in range.
pub proof fn lemma_last_ci_idx_bounds(lines: Seq<Seq<char>>, pat: Seq<char>)
    ensures
        last_ci_idx(lines, pat) is Some ==> 0 <= last_ci_idx(lines, pat)->0 < lines.len(),
    decreases lines.len(),
{
    if lines.len() == 0 {
    } else if starts_ci_spec(lines.last(), pat) {
    } else {
        lemma_last_ci_idx_bounds(lines.drop_last(), pat);
    }
}

/// Where poem content is assumed to start: one past the last `POEM` label
/// line, or the beginning.
pub open spec fn poem_start_idx(lines: Seq<Seq<char>>) -> int {
    match last_ci_idx(lines, "POEM"@) {
        Some(i) => i + 1,
        None => 0,
    }
}

/// Where title content is assumed to start: one past the last `TITLE`
/// label line, or the end.
pub open spec fn title_start_idx(lines: Seq<Seq<char>>) -> int {
    match last_ci_idx(lines, "TITLE"@) {
        Some(i) => i + 1,
        None => lines.len() as int,
    }
}

/// Where next-prompt content is assumed to start: one past the last `NEXT`
/// label line, or the end.
pub open spec fn next_start_idx(lines: Seq<Seq<char>>) -> int {
    match last_ci_idx(lines, "NEXT"@) {
        Some(i) => i + 1,
        None => lines.len() as int,
    }
}

/// The reconstructed poem: the lines between the poem boundary and the
/// title boundary, or all lines but the last two.
pub open spec fn heur_poem_raw(cl: Seq<Seq<char>>) -> Seq<char> {
    let ps = poem_start_idx(cl);
    let ts = title_start_idx(cl);
    if ts > ps {
        join_with(cl.subrange(ps, ts - 1), "\n"@)
    } else {
        join_with(cl.take(cl.len() - 2), "\n"@)
    }
}

/// The reconstructed title: the lines between the title boundary and the
/// next boundary, or the second-to-last line.
pub open spec fn heur_title_raw(cl: Seq<Seq<char>>) -> Seq<char> {
    let ts = title_start_idx(cl);
    let ns = next_start_idx(cl);
    if ns > ts {
        join_with(cl.subrange(ts, ns - 1), " "@)
    } else {
        cl[cl.len() - 2]
    }
}

/// The reconstructed next prompt: the lines after the next boundary, or the
/// last line.
pub open spec fn heur_next_raw(cl: Seq<Seq<char>>) -> Seq<char> {
    let ns = next_start_idx(cl);
    if ns < cl.len() {
        join_with(cl.skip(ns), " "@)
    } else {
        cl[cl.len() - 1]
    }
}

/// The poem the heuristic layer settles on: the reconstruction, or the
/// first 500 characters of the raw reply when the reconstruction is empty.
pub open spec fn heur_poem_final(s: Seq<char>, cl: Seq<Seq<char>>) -> Seq<char> {
    if heur_poem_raw(cl).len() == 0 {
        take_spec(s, 500)
    } else {
        heur_poem_raw(cl)
    }
}

/// The title the heuristic layer settles on: cut to six words when longer,
/// `Untitled` when empty.
pub open spec fn heur_title_final(cl: Seq<Seq<char>>) -> Seq<char> {
    let t = heur_title_raw(cl);
    if words_spec(t).len() > 6 {
        join_with(words_spec(t).take(6), " "@)
    } else if t.len() == 0 {
        "Untitled"@
    } else {
        t
    }
}

/// The next prompt the heuristic layer settles on.
pub open spec fn heur_next_final(cl: Seq<Seq<char>>) -> Seq<char> {
    fix_next_lines(heur_next_raw(cl))
}

/// The heuristic layer rejects only when there is no marker salvage and
/// fewer than three usable lines remain.
pub open spec fn heur_reject_spec(s: Seq<char>) -> bool {
    !salvage_applies(s) && clean_lines(lines_spec(s)).len() < 3
}

/// Extracts the trimmed text between two legacy markers, or an empty string
/// when a marker is absent or the pair stands out of order.
fn between_marker_pair(response: &str, start_pat: &str, end_pat: &str) -> (r: String)
    ensures
        r@ == between_markers(response@, start_pat@, end_pat@),
{
    let a = find_sub(response, start_pat);
    let b = find_sub(response, end_pat);
    match (a, b) {
        (Some(a), Some(b)) => {
            proof {
                lemma_find_from_bounds(response@, start_pat@, 0);
                lemma_find_from_bounds(response@, end_pat@, 0);
            }
            let m = start_pat.unicode_len();
            if m <= b && a <= b - m {
                trim_str(response.substring_char(a + m, b)).to_owned()
            } else {
                String::new()
            }
        },
        _ => String::new(),
    }
}

/// Cuts a title to its first six words when it has more.
fn truncate_title(title: String) -> (r: String)
    ensures
        r@ == fix_title(title@),
{
    let ws = word_list(title.as_str());
    if ws.len() > 6 {
        let mut ws6 = ws;
        let ghost full = ws6.deep_view();
        ws6.truncate(6);
        proof {
            assert(ws6.deep_view() =~~= full.take(6));
        }
        join_strs(&ws6, " ")
    } else {
        title
    }
}

/// Keeps a repaired next prompt only when it still trims to at least 50
/// characters, else substitutes the fixed sentence.
pub(crate) fn guard_next(repaired: String) -> (r: String)
    ensures
        r@ == guard_next_spec(repaired@),
{
    if trim_str(repaired.as_str()).unicode_len() < 50 {
        "Write about the static between disconnected thoughts in a digital void".to_owned()
    } else {
        repaired
    }
}

/// Keeps a formatted poem only when it trims to something, else
/// substitutes the fixed line.
fn guard_poem(formatted: String) -> (r: String)
    ensures
        r@ == fix_poem(formatted@),
{
    if trim_str(formatted.as_str()).unicode_len() == 0 {
        "static hum where words dissolved".to_owned()
    } else {
        formatted
    }
}

/// Joins the elements of `v` from `from` (inclusive) to `to` (exclusive)
/// with `sep`.
fn slice_join(v: &Vec<String>, from: usize, to: usize, sep: &str) -> (r: String)
    requires
        from <= to <= v@.len(),
    ensures
        r@ == join_with(v.deep_view().subrange(from as int, to as int), sep@),
{
    let mut pieces: Vec<String> = Vec::new();
    proof {
        assert(pieces.deep_view() =~~= v.deep_view().subrange(from as int, from as int));
    }
    let mut k: usize = from;
    while k < to
        invariant
            from <= k <= to <= v@.len(),
            v.deep_view().len() == v@.len(),
            pieces.deep_view() =~~= v.deep_view().subrange(from as int, k as int),
        decreases to - k,
    {
        let ghost before = pieces.deep_view();
        pieces.push(v[k].clone());
        proof {
            assert(pieces.deep_view() =~~= before.push(v.deep_view()[k as int]));
            assert(v.deep_view().subrange(from as int, k + 1) =~~= v.deep_view().subrange(
                from as int,
                k as int,
            ).push(v.deep_view()[k as int]));
        }
        k = k + 1;
    }
    join_strs(&pieces, sep)
}

/// Layer 2, the heuristic parser. Salvages legacy-marker content when all
/// three marker pairs yield text; otherwise reconstructs the three fields
/// from the reply's usable lines around case-insensitive label boundaries,
/// repairing the title's word count and the next prompt's length, and
/// substituting fixed text wherever a repair would still fall outside the
/// required shape. Whatever it accepts therefore has a title of at most
/// six words, a next prompt of 50 to 300 characters, and a non-blank poem.
/// Rejects only when fewer than three usable lines exist. A label word
/// inside poem text can shift the boundaries; that imprecision is part of
/// the layer.
pub fn parse_with_heuristics(response: &str) -> (r: ParseOutcome)
    ensures
        r is Extracted <==> !heur_reject_spec(response@),
        r matches ParseOutcome::Rejected { reason } ==> reason == RejectReason::TooFewLines,
        r matches ParseOutcome::Extracted { poem, title, next_prompt } ==> (salvage_applies(
            response@,
        ) ==> {
            &&& poem@ == fix_poem(format_spec(salvage_poem(response@)))
            &&& title@ == fix_title(salvage_title(response@))
            &&& next_prompt@ == fix_next_salvage(salvage_next(response@))
        }),
        r matches ParseOutcome::Extracted { poem, title, next_prompt } ==> (!salvage_applies(
            response@,
        ) ==> {
            let cl = clean_lines(lines_spec(response@));
            &&& poem@ == fix_poem(format_spec(heur_poem_final(response@, cl)))
            &&& title@ == heur_title_final(cl)
            &&& next_prompt@ == heur_next_final(cl)
        }),
        r matches ParseOutcome::Extracted { poem, title, next_prompt } ==> {
            &&& words_spec(title@).len() <= 6
            &&& 50 <= next_prompt@.len() <= 300
            &&& 50 <= trim_spec(next_prompt@).len() <= 300
            &&& poem@.len() > 0
            &&& trim_spec(poem@).len() > 0
        },
{
    if has_old_markers(response) {
        let poem = between_marker_pair(response, "[POEM-START]", "[POEM-END]");
        let title = between_marker_pair(response, "[TITLE-START]", "[TITLE-END]");
        let next = between_marker_pair(response, "[NEXT-START]", "[NEXT-END]");
        if poem.as_str().unicode_len() > 0 && title.as_str().unicode_len() > 0
            && next.as_str().unicode_len() > 0 {
            let title_final = truncate_title(title);
            let next_len = next.as_str().unicode_len();
            let next_mid: String = if next_len < 50 {
                let mut fixed = String::new();
                fixed.append("Write about ");
                fixed.append(next.as_str());
                fixed
            } else if next_len > 300 {
                take_chars(next.as_str(), 300).to_owned()
            } else {
                next
            };
            let next_final = guard_next(next_mid);
            let poem_final = guard_poem(format_poem_lines(poem.as_str()));
            proof {
                lemma_fix_title_words(salvage_title(response@));
                lemma_fix_next_salvage_bounds(salvage_next(response@));
                lemma_fix_poem_nonempty(format_spec(salvage_poem(response@)));
            }
            return ParseOutcome::Extracted {
                poem: poem_final,
                title: title_final,
                next_prompt: next_final,
            };
        }
    }
    // line-based reconstruction
    let raw_lines = split_lines(response);
    let ghost ldv = raw_lines.deep_view();
    let mut clean: Vec<String> = Vec::new();
    proof {
        assert(ldv.skip(0) =~~= ldv);
        assert(clean.deep_view() + clean_lines(ldv) =~~= clean_lines(ldv));
    }
    let mut i: usize = 0;
    while i < raw_lines.len()
        invariant
            0 <= i <= raw_lines.len(),
            ldv == raw_lines.deep_view(),
            ldv.len() == raw_lines.len(),
            clean_lines(ldv) =~~= clean.deep_view() + clean_lines(ldv.skip(i as int)),
        decreases raw_lines.len() - i,
    {
        proof {
            assert(ldv.skip(i as int)[0] == ldv[i as int]);
            assert(ldv.skip(i as int).drop_first() =~= ldv.skip(i + 1));
        }
        let t = trim_str(raw_lines[i].as_str()).to_owned();
        proof {
            assert(raw_lines[i as int]@ == ldv[i as int]);
        }
        if t.as_str().unicode_len() > 0 && t.as_str().get_char(0) != '[' {
            let ghost before = clean.deep_view();
            clean.push(t);
            proof {
                assert(clean.deep_view() =~~= before + seq![trim_spec(ldv[i as int])]);
            }
        }
        i = i + 1;
    }
    proof {
        assert(clean_lines(ldv.skip(ldv.len() as int)) =~~= Seq::<Seq<char>>::empty());
        assert(clean.deep_view() =~~= clean_lines(ldv));
    }
    let ghost cl = clean.deep_view();
    let count = clean.len();
    if count < 3 {
        return ParseOutcome::Rejected { reason: RejectReason::TooFewLines };
    }
    // locate approximate section boundaries, last label line winning
    let mut ps: usize = 0;
    let mut ts: usize = count;
    let mut ns: usize = count;
    let mut k: usize = 0;
    while k < count
        invariant
            0 <= k <= count,
            cl == clean.deep_view(),
            cl.len() == count,
            ps as int == poem_start_idx(cl.take(k as int)),
            ts as int == match last_ci_idx(cl.take(k as int), "TITLE"@) {
                Some(i) => i + 1,
                None => count as int,
            },
            ns as int == match last_ci_idx(cl.take(k as int), "NEXT"@) {
                Some(i) => i + 1,
                None => count as int,
            },
            ps <= count,
            ts <= count,
            ns <= count,
        decreases count - k,
    {
        proof {
            assert(cl.take(k + 1).last() == cl[k as int]);
            assert(cl.take(k + 1).drop_last() =~~= cl.take(k as int));
            assert(clean[k as int]@ == cl[k as int]);
        }
        let line = &clean[k];
        if starts_with_ci(line.as_str(), "POEM") {
            ps = k + 1;
        } else if starts_with_ci(line.as_str(), "TITLE") {
            ts = k + 1;
        } else if starts_with_ci(line.as_str(), "NEXT") {
            ns = k + 1;
        }
        proof {
            reveal_strlit("POEM");
            reveal_strlit("TITLE");
            reveal_strlit("NEXT");
            let l = cl[k as int];
            assert(!(starts_ci_spec(l, "POEM"@) && starts_ci_spec(l, "TITLE"@))) by {
                if starts_ci_spec(l, "POEM"@) && starts_ci_spec(l, "TITLE"@) {
                    assert(crate::text::upper_char(l[0]) == "POEM"@[0]);
                    assert(crate::text::upper_char(l[0]) == "TITLE"@[0]);
                }
            }
            assert(!(starts_ci_spec(l, "POEM"@) && starts_ci_spec(l, "NEXT"@))) by {
                if starts_ci_spec(l, "POEM"@) && starts_ci_spec(l, "NEXT"@) {
                    assert(crate::text::upper_char(l[0]) == "POEM"@[0]);
                    assert(crate::text::upper_char(l[0]) == "NEXT"@[0]);
                }
            }
            assert(!(starts_ci_spec(l, "TITLE"@) && starts_ci_spec(l, "NEXT"@))) by {
                if starts_ci_spec(l, "TITLE"@) && starts_ci_spec(l, "NEXT"@) {
                    assert(crate::text::upper_char(l[0]) == "TITLE"@[0]);
                    assert(crate::text::upper_char(l[0]) == "NEXT"@[0]);
                }
            }
        }
        k = k + 1;
    }
    proof {
        assert(cl.take(count as int) =~~= cl);
    }
    let poem_raw = if ts > ps {
        slice_join(&clean, ps, ts - 1, "\n")
    } else {
        slice_join(&clean, 0, count - 2, "\n")
    };
    proof {
        if ts > ps {
            assert(cl.subrange(ps as int, ts - 1) == cl.subrange(
                poem_start_idx(cl),
                title_start_idx(cl) - 1,
            ));
        } else {
            assert(cl.subrange(0, count - 2) =~~= cl.take(cl.len() - 2));
        }
    }
    let title_raw = if ns > ts {
        slice_join(&clean, ts, ns - 1, " ")
    } else {
        clean[count - 2].clone()
    };
    let next_raw = if ns < count {
        slice_join(&clean, ns, count, " ")
    } else {
        clean[count - 1].clone()
    };
    proof {
        if ns < count {
            assert(cl.subrange(ns as int, count as int) =~~= cl.skip(next_start_idx(cl)));
        }
    }
    let poem_final = if poem_raw.as_str().unicode_len() == 0 {
        take_chars(response, 500).to_owned()
    } else {
        poem_raw
    };
    let title_words = word_list(title_raw.as_str());
    let title_final: String = if title_words.len() > 6 {
        truncate_title(title_raw)
    } else if title_raw.as_str().unicode_len() == 0 {
        let mut u = String::new();
        u.append("Untitled");
        proof {
            assert(u@ =~= "Untitled"@);
        }
        u
    } else {
        title_raw
    };
    let next_len = next_raw.as_str().unicode_len();
    let next_mid: String = if next_len < 50 {
        let mut fixed = String::new();
        fixed.append("Write about the echoes of ");
        fixed.append(next_raw.as_str());
        fixed
    } else if next_len > 300 {
        take_chars(next_raw.as_str(), 300).to_owned()
    } else {
        next_raw
    };
    let next_final = guard_next(next_mid);
    let poem_done = guard_poem(format_poem_lines(poem_final.as_str()));
    proof {
        lemma_heur_title_words(cl);
        lemma_fix_next_lines_bounds(heur_next_raw(cl));
        lemma_fix_poem_nonempty(format_spec(heur_poem_final(response@, cl)));
    }
    ParseOutcome::Extracted { poem: poem_done, title: title_final, next_prompt: next_final }
}

} // verus!
