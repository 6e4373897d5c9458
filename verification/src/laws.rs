//! The library's stated laws, proved over the specification functions that
//! the executable contracts use. Each proof function's doc comment states
//! the law in words.

use vstd::prelude::*;
use crate::fallback::{algo_next_spec, composed_next_spec, glitch_poem_spec, glitch_title_spec, long_words};
use crate::format::{format_spec, lemma_format_nonempty};
use crate::is_space_char;
use crate::parse::{
    clean_lines, has_old_markers_spec, heur_next_raw, heur_poem_final, heur_title_final,
    label_next_raw, label_poem_raw, label_reject_spec, label_title_raw, labels_ordered,
    labels_present, salvage_applies, salvage_next, salvage_poem, salvage_title, RejectReason,
};
use crate::pipeline::{
    correction_prompt_for, extraction_spec, l1_next, l1_poem, l1_title, l2_next, l2_poem,
    l2_title, layer1_ok, layer2_ok, needs_correction_spec, GenerationMethod,
};
use crate::store::{genesis_state_spec, PoetStore};
use crate::template::format_correction_spec;
use crate::text::{
    dec_spec, lemma_dec_no_space, lemma_single_word, lemma_trim_bounds, lemma_trim_words,
    lemma_word_then_space, lemma_words_concat, lemma_words_wellformed, lines_spec, trim_spec,
    words_spec,
};

verus! {

/// What the label parser accepts is fully validated: the title holds at
/// most six words, the next prompt is 50 to 300 characters and already
/// trimmed, and the wrapped poem is non-empty and begins with
/// non-whitespace.
pub proof fn lemma_l1_valid(s: Seq<char>)
    requires
        layer1_ok(s),
    ensures
        words_spec(l1_title(s)).len() <= 6,
        50 <= l1_next(s).len() <= 300,
        trim_spec(l1_next(s)) == l1_next(s),
        l1_poem(s).len() > 0,
        !is_space_char(l1_poem(s)[0]),
{
    assert(label_reject_spec(s) is None);
    let p = label_poem_raw(s);
    assert(p.len() > 0);
    lemma_trim_bounds(s.subrange(crate::parse::poem_pos(s)->0 + 5, crate::parse::title_pos(s)->0));
    lemma_format_nonempty(p);
    crate::text::lemma_trim_idempotent(s.skip(crate::parse::next_pos(s)->0 + 5));
}

/// Whatever the heuristic layer produces as a title holds at most six
/// words.
pub proof fn lemma_l2_title(s: Seq<char>)
    ensures
        words_spec(l2_title(s)).len() <= 6,
{
    if salvage_applies(s) {
        crate::parse::lemma_fix_title_words(salvage_title(s));
    } else {
        crate::parse::lemma_heur_title_words(clean_lines(lines_spec(s)));
    }
}

/// The heuristic layer's next prompt is always 50 to 300 characters,
/// before and after trimming: the repairs end in a guard that substitutes
/// a fixed sentence when they fall short.
pub proof fn lemma_l2_next(s: Seq<char>)
    ensures
        50 <= l2_next(s).len() <= 300,
        50 <= trim_spec(l2_next(s)).len() <= 300,
{
    if salvage_applies(s) {
        crate::parse::lemma_fix_next_salvage_bounds(salvage_next(s));
    } else {
        crate::parse::lemma_fix_next_lines_bounds(heur_next_raw(clean_lines(lines_spec(s))));
    }
}

/// The heuristic layer's poem is never blank, before or after trimming:
/// an all-whitespace reconstruction is replaced by a fixed line.
pub proof fn lemma_l2_poem(s: Seq<char>)
    ensures
        l2_poem(s).len() > 0,
        trim_spec(l2_poem(s)).len() > 0,
{
    if salvage_applies(s) {
        crate::parse::lemma_fix_poem_nonempty(format_spec(salvage_poem(s)));
    } else {
        crate::parse::lemma_fix_poem_nonempty(
            format_spec(heur_poem_final(s, clean_lines(lines_spec(s)))),
        );
    }
}

/// The synthesized title "Glitch Cycle n" is exactly three words.
pub proof fn lemma_glitch_title_words(cycle: int)
    ensures
        words_spec(glitch_title_spec(cycle)).len() == 3,
{
    reveal_strlit("Glitch Cycle ");
    reveal_strlit("Glitch");
    reveal_strlit("Cycle");
    reveal_strlit(" ");
    let a1 = "Glitch"@ + " "@;
    let a2 = "Cycle"@ + " "@;
    let d = dec_spec(cycle);
    lemma_dec_no_space(cycle);
    assert("Glitch Cycle "@ =~= a1 + a2);
    assert(glitch_title_spec(cycle) =~= (a1 + a2) + d);
    assert((a1 + a2).last() == ' ');
    lemma_words_concat(a1 + a2, d);
    assert(a1.last() == ' ');
    assert((a1 + a2) =~= a1 + a2);
    lemma_words_concat(a1, a2);
    lemma_word_then_space("Glitch"@);
    lemma_word_then_space("Cycle"@);
    lemma_single_word(d);
    assert(words_spec(a1 + a2) =~~= seq!["Glitch"@] + seq!["Cycle"@]);
    assert(words_spec(glitch_title_spec(cycle)) =~~= (seq!["Glitch"@] + seq!["Cycle"@]) + seq![d]);
}

/// The synthesized next prompt always lands in the 50 to 300 character
/// range, before and after trimming: the fixed sentences do, a composed
/// sentence is kept only inside the range and begins and ends with a word
/// character, and a truncation that would trim below the floor gives way
/// to the fixed sentence.
pub proof fn lemma_algo_next_bounds(raw: Seq<char>, now: int)
    ensures
        50 <= algo_next_spec(raw, now).len() <= 300,
        50 <= trim_spec(algo_next_spec(raw, now)).len() <= 300,
{
    reveal_strlit("Write about the ");
    reveal_strlit("Write about the static between disconnected thoughts in a digital void");
    reveal_strlit("Write about digital entropy and its echoes in the void between pixels");
    reveal_strlit("Write about broken code becoming poetry in the spaces between error messages");
    reveal_strlit("Write about the void between keystrokes when consciousness fragments");
    reveal_strlit("Write about electric dreams gone wrong in the motherboard's dying breath");
    reveal_strlit("Write about consciousness glitching between existence and digital death");
    reveal_strlit("Write about beauty in system failure when memory leaks become waterfalls");
    crate::text::lemma_trim_noop(
        "Write about the static between disconnected thoughts in a digital void"@,
    );
    crate::text::lemma_trim_noop(
        "Write about digital entropy and its echoes in the void between pixels"@,
    );
    crate::text::lemma_trim_noop(
        "Write about broken code becoming poetry in the spaces between error messages"@,
    );
    crate::text::lemma_trim_noop(
        "Write about the void between keystrokes when consciousness fragments"@,
    );
    crate::text::lemma_trim_noop(
        "Write about electric dreams gone wrong in the motherboard's dying breath"@,
    );
    crate::text::lemma_trim_noop(
        "Write about consciousness glitching between existence and digital death"@,
    );
    crate::text::lemma_trim_noop(
        "Write about beauty in system failure when memory leaks become waterfalls"@,
    );
    if raw.len() > 20 {
        let ws = long_words(words_spec(raw));
        if ws.len() > 5 {
            let base = composed_next_spec(ws, now);
            if base.len() < 50 {
            } else if base.len() > 300 {
                assert(base.take(300).len() == 300);
                crate::parse::lemma_guard_next_bounds(base.take(300));
            } else {
                lemma_words_wellformed(raw);
                crate::fallback::lemma_long_words_wf(words_spec(raw));
                let n = ws.len() as int;
                let idx = now % n;
                let w3 = ws[(idx + 2) % n];
                assert(0 <= (idx + 2) % n < n);
                assert(w3.len() > 3);
                assert(base[0] == "Write about the "@[0]);
                assert(!is_space_char(base[0]));
                assert(base.last() == w3.last());
                assert(!is_space_char(base.last()));
                crate::text::lemma_trim_noop(base);
            }
        }
    }
}

/// The synthesized poem is non-empty after formatting: it begins with a
/// fixed non-whitespace frame.
pub proof fn lemma_algo_poem_nonempty(raw: Seq<char>, cycle: int, theme: Seq<char>)
    ensures
        format_spec(glitch_poem_spec(raw, cycle, theme)).len() > 0,
        !is_space_char(format_spec(glitch_poem_spec(raw, cycle, theme))[0]),
{
    reveal_strlit("=== Glitch Poetry Cycle ");
    reveal_strlit("ERROR HAIKU #");
    let p = glitch_poem_spec(raw, cycle, theme);
    if raw.len() > 50 {
        assert(p[0] == "=== Glitch Poetry Cycle "@[0]);
    } else {
        assert(p[0] == "ERROR HAIKU #"@[0]);
    }
    lemma_format_nonempty(p);
}

/// Raw text that carries all three labels in order, with non-empty
/// segments, a title of at most six words, a 50-to-300-character trailing
/// segment and no legacy markers, is accepted by the label parser, and the
/// pipeline returns exactly the trimmed, wrapped segments with method
/// Primary, whatever correction reply, cycle, theme and clock it was
/// handed.
pub proof fn lemma_primary_extraction(
    s: Seq<char>,
    correction: Option<Seq<char>>,
    cycle: int,
    theme: Seq<char>,
    now: int,
)
    requires
        !has_old_markers_spec(s),
        labels_present(s),
        labels_ordered(s),
        label_poem_raw(s).len() > 0,
        label_title_raw(s).len() > 0,
        label_next_raw(s).len() > 0,
        words_spec(label_title_raw(s)).len() <= 6,
        50 <= label_next_raw(s).len() <= 300,
    ensures
        layer1_ok(s),
        ({
            let ex = extraction_spec(s, correction, cycle, theme, now);
            &&& ex.method == GenerationMethod::Primary
            &&& ex.poem == format_spec(label_poem_raw(s))
            &&& ex.title == label_title_raw(s)
            &&& ex.next_prompt == label_next_raw(s)
        }),
{
    assert(label_reject_spec(s) is None);
}

/// Raw text that carries any legacy bracket marker is rejected by the
/// label parser for that very reason, forces the correction path with the
/// bracket-format correction prompt, and the pipeline's result is labelled
/// Corrected or Algorithmic, never Primary or Fallback.
pub proof fn lemma_markers_force_correction(
    s: Seq<char>,
    correction: Option<Seq<char>>,
    cycle: int,
    theme: Seq<char>,
    now: int,
)
    requires
        has_old_markers_spec(s),
    ensures
        label_reject_spec(s) == Some(RejectReason::OldMarkers),
        needs_correction_spec(s),
        correction_prompt_for(s) == format_correction_spec(),
        ({
            let m = extraction_spec(s, correction, cycle, theme, now).method;
            m == GenerationMethod::Corrected || m == GenerationMethod::Algorithmic
        }),
{
}

/// The pipeline's title always holds at most six words, whichever layer
/// produced it.
pub proof fn lemma_pipeline_title_words(
    raw: Seq<char>,
    correction: Option<Seq<char>>,
    cycle: int,
    theme: Seq<char>,
    now: int,
)
    ensures
        words_spec(extraction_spec(raw, correction, cycle, theme, now).title).len() <= 6,
{
    let ex = extraction_spec(raw, correction, cycle, theme, now);
    if !has_old_markers_spec(raw) && layer1_ok(raw) {
        lemma_l1_valid(raw);
    } else if !has_old_markers_spec(raw) && layer2_ok(raw) {
        lemma_l2_title(raw);
    } else {
        match correction {
            Some(c) => {
                if layer1_ok(c) {
                    lemma_l1_valid(c);
                } else if layer2_ok(c) {
                    lemma_l2_title(c);
                } else {
                    lemma_glitch_title_words(cycle);
                }
            },
            None => {
                lemma_glitch_title_words(cycle);
            },
        }
    }
}

/// The pipeline, handed arbitrary raw text (the empty string included) and
/// an arbitrary correction reply, returns a triple whose title holds at
/// most six words, whose next prompt is 50 to 300 characters, and whose
/// poem is non-empty — totality itself is the entry point's type, which
/// has no error variant. The bounds survive the trimming that storage
/// applies, so every stored cycle is valid too.
pub proof fn lemma_pipeline_output_valid(
    raw: Seq<char>,
    correction: Option<Seq<char>>,
    cycle: int,
    theme: Seq<char>,
    now: int,
)
    ensures
        ({
            let ex = extraction_spec(raw, correction, cycle, theme, now);
            &&& words_spec(ex.title).len() <= 6
            &&& 50 <= ex.next_prompt.len() <= 300
            &&& ex.poem.len() > 0
            &&& words_spec(trim_spec(ex.title)).len() <= 6
            &&& 50 <= trim_spec(ex.next_prompt).len() <= 300
            &&& trim_spec(ex.poem).len() > 0
        }),
{
    lemma_pipeline_title_words(raw, correction, cycle, theme, now);
    let ex = extraction_spec(raw, correction, cycle, theme, now);
    lemma_trim_words(ex.title);
    if !has_old_markers_spec(raw) && layer1_ok(raw) {
        lemma_l1_valid(raw);
        assert(!is_space_char(ex.poem[0]));
        lemma_trim_bounds(ex.poem);
    } else if !has_old_markers_spec(raw) && layer2_ok(raw) {
        lemma_l2_next(raw);
        lemma_l2_poem(raw);
    } else {
        match correction {
            Some(c) => {
                if layer1_ok(c) {
                    lemma_l1_valid(c);
                    assert(!is_space_char(ex.poem[0]));
                    lemma_trim_bounds(ex.poem);
                } else if layer2_ok(c) {
                    lemma_l2_next(c);
                    lemma_l2_poem(c);
                } else {
                    lemma_algo_next_bounds(raw, now);
                    lemma_algo_poem_nonempty(raw, cycle, theme);
                    assert(!is_space_char(ex.poem[0]));
                    lemma_trim_bounds(ex.poem);
                }
            },
            None => {
                lemma_algo_next_bounds(raw, now);
                lemma_algo_poem_nonempty(raw, cycle, theme);
                assert(!is_space_char(ex.poem[0]));
                lemma_trim_bounds(ex.poem);
            },
        }
    }
}

/// In a well-formed, synced store the cycle records are numbered 1 upward
/// without gaps, the state's current cycle equals the record count, and
/// the poem total equals the record count: N advances from a fresh store
/// leave cycle numbers 1..N with `current_cycle == N` and
/// `total_poems == N`, since every advance preserves this shape while
/// incrementing both counters.
pub proof fn lemma_cycle_numbering(s: &PoetStore)
    requires
        s.wf(),
        s.synced(),
        s.state_view() is Some,
    ensures
        s.state_view()->0.current_cycle as int == s.cycles_view().len(),
        s.state_view()->0.total_poems as int == s.cycles_view().len(),
        forall|i: int|
            0 <= i < s.cycles_view().len() ==> (#[trigger] s.cycles_view()[i]).cycle_number as int
                == i + 1,
{
}

/// Round trip: a store after `reset_poet` and a store freshly
/// `initialize_poet`-ed from empty, with the same clock value, are
/// indistinguishable in every observation: no cycle records, cycle zero,
/// zero poems, the same genesis theme and template text, the same stamp.
/// The two requires clauses are exactly what those operations ensure.
pub proof fn lemma_reset_matches_initialize(a: &PoetStore, b: &PoetStore, now: u64)
    requires
        a.cycles_view().len() == 0,
        a.state_view() matches Some(sa) && genesis_state_spec(sa, now),
        b.cycles_view().len() == 0,
        b.state_view() matches Some(sb) && genesis_state_spec(sb, now),
    ensures
        a.cycles_view() =~= b.cycles_view(),
        a.state_view()->0.current_cycle == b.state_view()->0.current_cycle,
        a.state_view()->0.total_poems == b.state_view()->0.total_poems,
        a.state_view()->0.genesis_prompt@ == b.state_view()->0.genesis_prompt@,
        a.state_view()->0.meta_form@ == b.state_view()->0.meta_form@,
        a.state_view()->0.last_updated == b.state_view()->0.last_updated,
{
}

} // verus!
