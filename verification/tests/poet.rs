use autopoet::pipeline::GenerationMethod;
use autopoet::store::PoetStore;

const GENESIS: &str = "Write about the raw, unfiltered experience of being human";

fn primary_raw(tag: &str) -> String {
    format!("POEM: verse about {}\nTITLE: On {}\nNEXT: {}", tag, tag, "n".repeat(90))
}

#[test]
fn initialize_reports_genesis_theme() {
    let mut store = PoetStore::new();
    let msg = store.initialize_poet(42);
    assert_eq!(msg, format!("Poet initialized with genesis prompt: {}", GENESIS));
    assert!(store.is_poet_initialized());
    let st = store.get_poet_state().unwrap();
    assert_eq!(st.current_cycle, 0);
    assert_eq!(st.total_poems, 0);
    assert_eq!(st.genesis_prompt, GENESIS);
    assert_eq!(st.last_updated, 42);
}

#[test]
fn fresh_store_is_uninitialized_and_empty() {
    let store = PoetStore::new();
    assert!(!store.is_poet_initialized());
    assert!(store.get_poet_state().is_none());
    assert!(store.get_current_poem().is_none());
    assert_eq!(store.get_poem_count(), 0);
    assert!(store.get_all_poems().is_empty());
}

#[test]
fn repeated_advances_number_cycles_consecutively() {
    let mut store = PoetStore::new();
    for n in 1..=3u64 {
        let cycle = store.evolve_poet(&primary_raw("dust"), None, 100 + n);
        assert_eq!(cycle.cycle_number, n);
        assert_eq!(cycle.id, n);
    }
    let st = store.get_poet_state().unwrap();
    assert_eq!(st.current_cycle, 3);
    assert_eq!(st.total_poems, 3);
    assert_eq!(store.get_poem_count(), 3);
    let all = store.get_all_poems();
    assert_eq!(all.len(), 3);
    for (i, c) in all.iter().enumerate() {
        assert_eq!(c.cycle_number, i as u64 + 1);
    }
}

#[test]
fn advance_chains_next_prompt_into_theme() {
    let mut store = PoetStore::new();
    store.initialize_poet(0);
    let first = store.evolve_poet(&primary_raw("alpha"), None, 1);
    assert_eq!(first.next_prompt, "n".repeat(90));
    let ctx = store.begin_evolution(2);
    assert_eq!(ctx.cycle_number, 2);
    assert_eq!(ctx.theme, "n".repeat(90));
    assert!(ctx.full_prompt.contains("Cycle: 2"));
    assert!(ctx.full_prompt.contains(&format!("YOUR THEME: {}", "n".repeat(90))));
    assert!(ctx.full_prompt.contains("PREVIOUS POEM:\nverse about alpha"));
}

#[test]
fn first_advance_uses_genesis_theme() {
    let mut store = PoetStore::new();
    let ctx = store.begin_evolution(7);
    assert_eq!(ctx.cycle_number, 1);
    assert_eq!(ctx.theme, GENESIS);
    assert!(ctx.full_prompt.contains("This is the first poem. Set the tone."));
    assert!(store.is_poet_initialized());
}

#[test]
fn advance_records_method_and_truncated_raw() {
    let mut store = PoetStore::new();
    let raw = primary_raw("echo");
    let cycle = store.evolve_poet(&raw, None, 5);
    assert_eq!(cycle.generation_method, GenerationMethod::Primary);
    assert_eq!(cycle.created_at, 5);
    assert_eq!(cycle.raw_response, raw);
    assert_eq!(cycle.poem, "verse about echo");
    assert_eq!(store.get_raw_response(1).unwrap(), raw);
    assert!(store.get_raw_response(2).is_none());
    let big = format!("POEM: v\nTITLE: T\nNEXT: {}{}", "n".repeat(90), "z".repeat(6000));
    let second = store.evolve_poet(&big, None, 6);
    assert_eq!(second.raw_response.chars().count(), 5000);
}

#[test]
fn garbled_advance_still_succeeds() {
    let mut store = PoetStore::new();
    let cycle = store.evolve_poet("", None, 9);
    assert_eq!(cycle.generation_method, GenerationMethod::Algorithmic);
    assert_eq!(cycle.title, "Glitch Cycle 1");
    assert!(cycle.next_prompt.len() >= 50 && cycle.next_prompt.len() <= 300);
    assert!(!cycle.poem.is_empty());
    assert_eq!(store.get_poem_count(), 1);
}

#[test]
fn generation_stats_tally_methods() {
    let mut store = PoetStore::new();
    store.evolve_poet(&primary_raw("one"), None, 1);
    // marker-ridden reply with no usable correction: algorithmic
    store.evolve_poet("[POEM-START]x[POEM-END]", None, 2);
    // plain prose with enough lines: heuristic fallback
    store.evolve_poet("wandering lines\nof loose text\nwith no labels at all", None, 3);
    let stats = store.get_generation_stats();
    assert_eq!(stats.total_poems, 3);
    assert_eq!(stats.primary_success, 1);
    assert_eq!(stats.fallback_used, 1);
    assert_eq!(stats.correction_used, 0);
    assert_eq!(stats.algorithmic_used, 1);
}

#[test]
fn reset_returns_to_freshly_initialized_state() {
    let mut reset_store = PoetStore::new();
    reset_store.initialize_poet(11);
    reset_store.evolve_poet(&primary_raw("one"), None, 12);
    reset_store.evolve_poet(&primary_raw("two"), None, 13);
    assert!(reset_store.reset_poet(50));

    let mut fresh = PoetStore::new();
    fresh.initialize_poet(50);

    assert_eq!(reset_store.get_poem_count(), fresh.get_poem_count());
    assert!(reset_store.get_current_poem().is_none());
    assert!(fresh.get_current_poem().is_none());
    assert!(reset_store.get_all_poems().is_empty());
    let a = reset_store.get_poet_state().unwrap();
    let b = fresh.get_poet_state().unwrap();
    assert_eq!(a.current_cycle, b.current_cycle);
    assert_eq!(a.total_poems, b.total_poems);
    assert_eq!(a.genesis_prompt, b.genesis_prompt);
    assert_eq!(a.meta_form, b.meta_form);
    assert_eq!(a.last_updated, b.last_updated);
}

#[test]
fn set_next_prompt_fails_before_first_cycle() {
    let mut store = PoetStore::new();
    store.initialize_poet(1);
    assert!(!store.set_next_prompt("override".to_string()));
    let st = store.get_poet_state().unwrap();
    assert_eq!(st.current_cycle, 0);
    assert_eq!(st.total_poems, 0);
    assert_eq!(store.get_poem_count(), 0);

    let mut empty = PoetStore::new();
    assert!(!empty.set_next_prompt("override".to_string()));
    assert!(!empty.is_poet_initialized());
}

#[test]
fn set_next_prompt_overrides_current_cycle() {
    let mut store = PoetStore::new();
    store.evolve_poet(&primary_raw("one"), None, 1);
    assert!(store.set_next_prompt("A manual theme".to_string()));
    let current = store.get_current_poem().unwrap();
    assert_eq!(current.next_prompt, "A manual theme");
    // the override drives the next advance's theme
    let ctx = store.begin_evolution(2);
    assert_eq!(ctx.theme, "A manual theme");
}

#[test]
fn poem_lookup_by_cycle() {
    let mut store = PoetStore::new();
    store.evolve_poet(&primary_raw("one"), None, 1);
    store.evolve_poet(&primary_raw("two"), None, 2);
    assert_eq!(store.get_poem_by_cycle(1).unwrap().poem, "verse about one");
    assert_eq!(store.get_poem_by_cycle(2).unwrap().poem, "verse about two");
    assert!(store.get_poem_by_cycle(0).is_none());
    assert!(store.get_poem_by_cycle(3).is_none());
    assert_eq!(store.get_current_poem().unwrap().cycle_number, 2);
}

#[test]
fn reinitialize_keeps_history_and_next_advance_overwrites_cycle_one() {
    let mut store = PoetStore::new();
    store.evolve_poet(&primary_raw("one"), None, 1);
    store.evolve_poet(&primary_raw("two"), None, 2);
    store.initialize_poet(3);
    // initialization overwrites only the poet state; records stay
    assert_eq!(store.get_all_poems().len(), 2);
    assert_eq!(store.get_poet_state().unwrap().current_cycle, 0);
    assert_eq!(store.get_poem_count(), 0);
    // the next advance starts over at cycle 1, replacing the old record
    let cycle = store.evolve_poet(&primary_raw("anew"), None, 4);
    assert_eq!(cycle.cycle_number, 1);
    assert_eq!(store.get_all_poems().len(), 2);
    assert_eq!(store.get_poem_by_cycle(1).unwrap().poem, "verse about anew");
    assert_eq!(store.get_poem_by_cycle(2).unwrap().poem, "verse about two");
    assert_eq!(store.get_poem_count(), 1);
}

#[test]
fn correction_reply_may_resolve_through_heuristics() {
    let mut store = PoetStore::new();
    let raw = "[TITLE-START]only a title[TITLE-END]";
    let correction = "first line of verse\nsecond line of verse\nthird line of verse";
    let cycle = store.evolve_poet(raw, Some(correction), 1);
    assert_eq!(cycle.generation_method, GenerationMethod::Corrected);
    assert_eq!(cycle.poem, "first line of verse\nsecond line of verse");
}

#[test]
fn from_parts_validates_numbering() {
    let mut donor = PoetStore::new();
    donor.evolve_poet(&primary_raw("one"), None, 1);
    let cycles = donor.get_all_poems();
    let state = donor.get_poet_state();
    let rebuilt = PoetStore::from_parts(cycles, state).expect("consistent parts must be accepted");
    assert_eq!(rebuilt.get_poem_count(), 1);

    let mut bad_cycles = donor.get_all_poems();
    bad_cycles[0].cycle_number = 7;
    assert!(PoetStore::from_parts(bad_cycles, donor.get_poet_state()).is_none());
}
