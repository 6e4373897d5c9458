use autopoet::fallback::generate_algorithmic_fallback;
use autopoet::format::format_poem_lines;
use autopoet::parse::{
    has_old_markers, parse_with_heuristics, parse_with_labels, ParseOutcome, RejectReason,
};
use autopoet::pipeline::{plan_extraction, run_extraction, ExtractionPlan, GenerationMethod};
use autopoet::template::{
    apply_meta_form, create_correction_prompt, create_format_correction_prompt, create_meta_form,
};

fn extracted(outcome: ParseOutcome) -> (String, String, String) {
    match outcome {
        ParseOutcome::Extracted { poem, title, next_prompt } => (poem, title, next_prompt),
        ParseOutcome::Rejected { reason } => panic!("unexpected rejection: {:?}", reason),
    }
}

fn rejection(outcome: ParseOutcome) -> RejectReason {
    match outcome {
        ParseOutcome::Extracted { .. } => panic!("unexpected acceptance"),
        ParseOutcome::Rejected { reason } => reason,
    }
}

#[test]
fn label_parse_simple_success() {
    let raw = format!("POEM: a single line\nTITLE: One Two Three\nNEXT: {}", "x".repeat(60));
    let (poem, title, next) = extracted(parse_with_labels(&raw));
    assert_eq!(poem, "a single line");
    assert_eq!(title, "One Two Three");
    assert_eq!(next.len(), 60);
}

#[test]
fn pipeline_primary_success() {
    let raw = format!("POEM: a single line\nTITLE: One Two Three\nNEXT: {}", "x".repeat(60));
    let ex = run_extraction(&raw, None, 1, "theme", 0);
    assert_eq!(ex.method, GenerationMethod::Primary);
    assert_eq!(ex.poem, "a single line");
    assert_eq!(ex.title, "One Two Three");
    assert_eq!(ex.next_prompt.len(), 60);
}

#[test]
fn legacy_markers_force_correction_path() {
    let raw = "[POEM-START]hi[POEM-END][TITLE-START]Hi[TITLE-END][NEXT-START]short[NEXT-END]";
    assert!(has_old_markers(raw));
    assert_eq!(rejection(parse_with_labels(raw)), RejectReason::OldMarkers);
    match plan_extraction(raw) {
        ExtractionPlan::NeedsCorrection { prompt } => {
            assert!(prompt.starts_with("You used the WRONG format with [BRACKETS]."));
        },
        ExtractionPlan::Accepted { .. } => panic!("markers must force the correction path"),
    }
}

#[test]
fn legacy_markers_without_correction_fall_to_algorithmic() {
    let raw = "[POEM-START]hi[POEM-END][TITLE-START]Hi[TITLE-END][NEXT-START]short[NEXT-END]";
    let ex = run_extraction(raw, None, 4, "theme", 0);
    assert_eq!(ex.method, GenerationMethod::Algorithmic);
    assert_eq!(ex.title, "Glitch Cycle 4");
}

#[test]
fn empty_response_reaches_algorithmic_layer() {
    let ex = run_extraction("", None, 1, "old theme", 0);
    assert_eq!(ex.method, GenerationMethod::Algorithmic);
    assert_eq!(ex.title, "Glitch Cycle 1");
    assert!(ex.next_prompt.len() >= 50 && ex.next_prompt.len() <= 300);
    assert!(!ex.poem.is_empty());
}

#[test]
fn corrected_reply_is_labelled_corrected() {
    let raw = "[POEM-START]hi[POEM-END]";
    let fixed = format!("POEM: repaired verse\nTITLE: Fixed Now\nNEXT: {}", "y".repeat(80));
    let ex = run_extraction(raw, Some(&fixed), 2, "theme", 0);
    assert_eq!(ex.method, GenerationMethod::Corrected);
    assert_eq!(ex.poem, "repaired verse");
    assert_eq!(ex.title, "Fixed Now");
}

#[test]
fn label_parse_missing_labels() {
    assert_eq!(
        rejection(parse_with_labels("POEM: something\nTITLE: no next label here")),
        RejectReason::MissingLabels
    );
}

#[test]
fn label_parse_out_of_order() {
    let raw = format!("TITLE: Early\nPOEM: verse\nNEXT: {}", "x".repeat(60));
    assert_eq!(rejection(parse_with_labels(&raw)), RejectReason::LabelsOutOfOrder);
}

#[test]
fn label_parse_empty_section() {
    let raw = format!("POEM:\nTITLE: A Title\nNEXT: {}", "x".repeat(60));
    assert_eq!(rejection(parse_with_labels(&raw)), RejectReason::EmptySection);
}

#[test]
fn label_parse_title_too_long() {
    let raw = format!("POEM: verse\nTITLE: one two three four five six seven\nNEXT: {}", "x".repeat(60));
    assert_eq!(rejection(parse_with_labels(&raw)), RejectReason::TitleTooLong);
}

#[test]
fn label_parse_next_prompt_out_of_range() {
    let raw = "POEM: verse\nTITLE: A Title\nNEXT: too short";
    assert_eq!(rejection(parse_with_labels(raw)), RejectReason::NextPromptLength);
    let raw = format!("POEM: verse\nTITLE: A Title\nNEXT: {}", "x".repeat(301));
    assert_eq!(rejection(parse_with_labels(&raw)), RejectReason::NextPromptLength);
}

#[test]
fn heuristics_reject_near_empty_content() {
    assert_eq!(rejection(parse_with_heuristics("a\nb")), RejectReason::TooFewLines);
    assert_eq!(rejection(parse_with_heuristics("")), RejectReason::TooFewLines);
}

const SAFE_NEXT: &str = "Write about the static between disconnected thoughts in a digital void";

#[test]
fn heuristics_reconstruct_from_label_lines() {
    let raw = "POEM:\nline one\nline two\nTITLE: My Title\nNEXT: something short";
    let (poem, title, next) = extracted(parse_with_heuristics(raw));
    assert_eq!(poem, "line one\nline two");
    assert_eq!(title, "Untitled");
    // the repair prefix cannot lift this 21-character tail to 50, so the
    // fixed sentence stands in
    assert_eq!(next, SAFE_NEXT);
}

#[test]
fn heuristics_repair_lifts_a_long_enough_tail() {
    let raw = "POEM:\nline one\nline two\nTITLE: My Title\nNEXT: twenty-four characters..";
    let (_, _, next) = extracted(parse_with_heuristics(raw));
    assert_eq!(next, "Write about the echoes of NEXT: twenty-four characters..");
    assert!(next.len() >= 50 && next.len() <= 300);
}

#[test]
fn heuristics_never_undershoot_the_next_prompt_floor() {
    let (_, _, next) = extracted(parse_with_heuristics("a\nb\nc"));
    assert_eq!(next, SAFE_NEXT);
    let raw = "[POEM-START]deep verse[POEM-END][TITLE-START]T[TITLE-END][NEXT-START]tiny[NEXT-END]";
    let (_, _, next) = extracted(parse_with_heuristics(raw));
    assert_eq!(next, SAFE_NEXT);
}

#[test]
fn heuristics_substitute_a_blank_poem() {
    let raw = format!("{}\nPOEM:\nTITLE: t\nNEXT: n", " ".repeat(500));
    let (poem, _, _) = extracted(parse_with_heuristics(&raw));
    assert_eq!(poem, "static hum where words dissolved");
}

#[test]
fn heuristics_salvage_legacy_markers() {
    let long_next = "z".repeat(60);
    let raw = format!(
        "[POEM-START] my poem [POEM-END][TITLE-START]A Title[TITLE-END][NEXT-START]{}[NEXT-END]",
        long_next
    );
    let (poem, title, next) = extracted(parse_with_heuristics(&raw));
    assert_eq!(poem, "my poem");
    assert_eq!(title, "A Title");
    assert_eq!(next, long_next);
}

#[test]
fn heuristics_repair_short_salvaged_next() {
    let raw = "[POEM-START]deep verse[POEM-END][TITLE-START]T[TITLE-END][NEXT-START]forty characters of next prompt padding[NEXT-END]";
    let (_, _, next) = extracted(parse_with_heuristics(raw));
    assert_eq!(next, "Write about forty characters of next prompt padding");
    assert!(next.len() >= 50);
}

#[test]
fn heuristics_truncate_long_title() {
    let raw = format!(
        "POEM:\nverse here\nmore verse\nTITLE:\none two three four five six seven eight\nNEXT: {}",
        "q".repeat(70)
    );
    let (_, title, _) = extracted(parse_with_heuristics(&raw));
    assert_eq!(title.split_whitespace().count(), 6);
    assert_eq!(title, "one two three four five six");
}

#[test]
fn formatter_keeps_short_lines() {
    assert_eq!(format_poem_lines("short line"), "short line");
    assert_eq!(format_poem_lines(&"a".repeat(60)), "a".repeat(60));
}

#[test]
fn formatter_hard_breaks_unspaced_lines() {
    let long = "a".repeat(130);
    let formatted = format_poem_lines(&long);
    let parts: Vec<&str> = formatted.split('\n').collect();
    assert_eq!(parts, vec!["a".repeat(60), "a".repeat(60), "a".repeat(10)]);
}

#[test]
fn formatter_normalizes_line_endings() {
    assert_eq!(format_poem_lines("a\r\nb"), "a\nb");
    assert_eq!(format_poem_lines("a\r"), "a\r");
    assert_eq!(format_poem_lines("a\nb\n"), "a\nb");
}

#[test]
fn formatter_breaks_at_last_space() {
    // 70 characters with a space at position 64 and one inside the window
    let line = format!("{} {}", "w".repeat(55), "v".repeat(14));
    let formatted = format_poem_lines(&line);
    assert_eq!(formatted, format!("{}\n{}", "w".repeat(55), "v".repeat(14)));
}

#[test]
fn meta_form_substitution() {
    let form = create_meta_form(None);
    assert!(form.contains("{CYCLE_NUMBER}"));
    assert!(form.contains("{CURRENT_PROMPT}"));
    let applied = apply_meta_form(&form, 7, "the taste of static");
    assert!(!applied.contains("{CYCLE_NUMBER}"));
    assert!(!applied.contains("{CURRENT_PROMPT}"));
    assert!(applied.contains("Cycle: 7"));
    assert!(applied.contains("YOUR THEME: the taste of static"));
}

#[test]
fn meta_form_embeds_previous_poem() {
    let form = create_meta_form(Some("old verse body".to_string()));
    assert!(form.contains("PREVIOUS POEM:\nold verse body"));
    assert!(form.contains("REFLECTION:"));
    let fresh = create_meta_form(None);
    assert!(fresh.contains("This is the first poem. Set the tone."));
}

#[test]
fn apply_meta_form_replaces_every_occurrence_and_tolerates_absence() {
    assert_eq!(apply_meta_form("Cycle {CYCLE_NUMBER}: {CURRENT_PROMPT}", 7, "dust"), "Cycle 7: dust");
    assert_eq!(
        apply_meta_form("{CYCLE_NUMBER}+{CYCLE_NUMBER}", 12, "unused"),
        "12+12"
    );
    assert_eq!(apply_meta_form("no placeholders", 3, "theme"), "no placeholders");
}

#[test]
fn correction_prompts_quote_and_instruct() {
    let p = create_correction_prompt(&"b".repeat(1200));
    assert!(p.starts_with("You produced this output:\n"));
    assert!(p.contains(&"b".repeat(1000)));
    assert!(!p.contains(&"b".repeat(1001)));
    let f = create_format_correction_prompt("whatever");
    assert!(f.contains("DO NOT USE:\n[POEM-START], [POEM-END]"));
}

#[test]
fn algorithmic_fallback_short_input() {
    let (poem, title, next) = generate_algorithmic_fallback("", 2, "abc", 3);
    assert_eq!(poem, "ERROR HAIKU #2\n\nThe prompt whispered:\n\"abc\"\nBut silence answered");
    assert_eq!(title, "Glitch Cycle 2");
    assert_eq!(next, "Write about consciousness glitching between existence and digital death");
}

#[test]
fn algorithmic_fallback_wraps_long_output() {
    let raw = "x".repeat(80);
    let (poem, title, next) = generate_algorithmic_fallback(&raw, 9, "prior theme", 0);
    assert!(poem.starts_with("=== Glitch Poetry Cycle 9 ==="));
    assert!(poem.contains("[beauty in malfunction]"));
    assert_eq!(title, "Glitch Cycle 9");
    // one long run of x's is a single long word: too few for composition
    assert_eq!(next, "Write about digital entropy and its echoes in the void between pixels");
}

#[test]
fn algorithmic_fallback_composes_from_long_words() {
    let raw = "programmatic infrastructu metamorphosis considerable alphabetical juxtaposition";
    let (_, _, next) = generate_algorithmic_fallback(raw, 1, "prior", 1);
    assert_eq!(next, "Write about the infrastructu between metamorphosis and considerable");
    assert!(next.len() >= 50 && next.len() <= 300);
}
