//! Orchestration of the four extraction layers. The pipeline's public
//! entry points have no error variant at all: every raw reply, including
//! the empty string, resolves to a triple and the method that produced it.
//! The single re-query the correction layer may need is injected as a
//! value, so the whole cascade stays a pure function of its inputs.

use vstd::prelude::*;
use crate::fallback::{algo_next_spec, generate_algorithmic_fallback, glitch_poem_spec, glitch_title_spec};
use crate::format::format_spec;
use crate::parse::{
    clean_lines, fix_next_salvage, fix_poem, fix_title, has_old_markers, has_old_markers_spec,
    heur_next_final, heur_poem_final, heur_reject_spec, heur_title_final, label_next_raw,
    label_poem_raw, label_reject_spec, label_title_raw, parse_with_heuristics, parse_with_labels,
    salvage_applies, salvage_next, salvage_poem, salvage_title, ParseOutcome,
};
use crate::template::{
    correction_prompt_spec, create_correction_prompt, create_format_correction_prompt,
    format_correction_spec,
};
use crate::text::lines_spec;

verus! {

/// Which pipeline layer produced the stored fields of a cycle.
#[derive(Clone, Copy, Debug, PartialEq, Eq, Structural)]
pub enum GenerationMethod {
    /// The strict label parser accepted the reply.
    Primary,
    /// The heuristic parser reconstructed the fields.
    Fallback,
    /// A second model call supplied a reply that then parsed.
    Corrected,
    /// Last-resort synthesis.
    Algorithmic,
}

/// A fully resolved extraction: the validated triple and its provenance.
#[derive(Clone, Debug)]
pub struct Extraction {
    pub poem: String,
    pub title: String,
    pub next_prompt: String,
    pub method: GenerationMethod,
}

/// What one advance should do next: accept a parsed triple, or issue the
/// given correction prompt to the model and resolve with its reply.
#[derive(Clone, Debug)]
pub enum ExtractionPlan {
    Accepted { poem: String, title: String, next_prompt: String, method: GenerationMethod },
    NeedsCorrection { prompt: String },
}

/// The extraction a pipeline run settles on, at the specification level.
pub struct SpecExtraction {
    pub poem: Seq<char>,
    pub title: Seq<char>,
    pub next_prompt: Seq<char>,
    pub method: GenerationMethod,
}

/// The strict label parser accepts `s`.
pub open spec fn layer1_ok(s: Seq<char>) -> bool {
    label_reject_spec(s) is None
}

pub open spec fn l1_poem(s: Seq<char>) -> Seq<char> {
    format_spec(label_poem_raw(s))
}

pub open spec fn l1_title(s: Seq<char>) -> Seq<char> {
    label_title_raw(s)
}

pub open spec fn l1_next(s: Seq<char>) -> Seq<char> {
    label_next_raw(s)
}

/// The heuristic parser accepts `s`.
pub open spec fn layer2_ok(s: Seq<char>) -> bool {
    !heur_reject_spec(s)
}

pub open spec fn l2_poem(s: Seq<char>) -> Seq<char> {
    if salvage_applies(s) {
        fix_poem(format_spec(salvage_poem(s)))
    } else {
        fix_poem(format_spec(heur_poem_final(s, clean_lines(lines_spec(s)))))
    }
}

pub open spec fn l2_title(s: Seq<char>) -> Seq<char> {
    if salvage_applies(s) {
        fix_title(salvage_title(s))
    } else {
        heur_title_final(clean_lines(lines_spec(s)))
    }
}

pub open spec fn l2_next(s: Seq<char>) -> Seq<char> {
    if salvage_applies(s) {
        fix_next_salvage(salvage_next(s))
    } else {
        heur_next_final(clean_lines(lines_spec(s)))
    }
}

/// What the algorithmic layer yields.
pub open spec fn algo_extraction_spec(raw: Seq<char>, cycle: int, theme: Seq<char>, now: int)
    -> SpecExtraction {
    SpecExtraction {
        poem: format_spec(glitch_poem_spec(raw, cycle, theme)),
        title: glitch_title_spec(cycle),
        next_prompt: algo_next_spec(raw, now),
        method: GenerationMethod::Algorithmic,
    }
}

/// How a correction reply is resolved: re-run the label parser, then the
/// heuristic parser; an absent or still-unparseable reply falls through to
/// the algorithmic layer on the original raw text.
pub open spec fn resolve_spec(
    raw: Seq<char>,
    correction: Option<Seq<char>>,
    cycle: int,
    theme: Seq<char>,
    now: int,
) -> SpecExtraction {
    match correction {
        Some(c) => if layer1_ok(c) {
            SpecExtraction {
                poem: l1_poem(c),
                title: l1_title(c),
                next_prompt: l1_next(c),
                method: GenerationMethod::Corrected,
            }
        } else if layer2_ok(c) {
            SpecExtraction {
                poem: l2_poem(c),
                title: l2_title(c),
                next_prompt: l2_next(c),
                method: GenerationMethod::Corrected,
            }
        } else {
            algo_extraction_spec(raw, cycle, theme, now)
        },
        None => algo_extraction_spec(raw, cycle, theme, now),
    }
}

/// The correction layer must be consulted: the raw reply carries legacy
/// markers, or both direct parsing layers reject it.
pub open spec fn needs_correction_spec(raw: Seq<char>) -> bool {
    has_old_markers_spec(raw) || (!layer1_ok(raw) && !layer2_ok(raw))
}

/// Which correction prompt the plan issues.
pub open spec fn correction_prompt_for(raw: Seq<char>) -> Seq<char> {
    if has_old_markers_spec(raw) {
        format_correction_spec()
    } else {
        correction_prompt_spec(raw)
    }
}

/// The full pipeline: legacy markers skip the direct layers and force
/// correction; otherwise the label parser, then the heuristic parser, then
/// correction.
pub open spec fn extraction_spec(
    raw: Seq<char>,
    correction: Option<Seq<char>>,
    cycle: int,
    theme: Seq<char>,
    now: int,
) -> SpecExtraction {
    if has_old_markers_spec(raw) {
        resolve_spec(raw, correction, cycle, theme, now)
    } else if layer1_ok(raw) {
        SpecExtraction {
            poem: l1_poem(raw),
            title: l1_title(raw),
            next_prompt: l1_next(raw),
            method: GenerationMethod::Primary,
        }
    } else if layer2_ok(raw) {
        SpecExtraction {
            poem: l2_poem(raw),
            title: l2_title(raw),
            next_prompt: l2_next(raw),
            method: GenerationMethod::Fallback,
        }
    } else {
        resolve_spec(raw, correction, cycle, theme, now)
    }
}

/// Decides what one advance does with the raw reply: a reply with legacy
/// markers is never parsed in place but sent for format correction; a
/// marker-free reply is accepted by the label parser or, failing that, by
/// the heuristic parser, which only rejects near-empty content; only then
/// is a general correction requested.
pub fn plan_extraction(raw: &str) -> (r: ExtractionPlan)
    ensures
        r is NeedsCorrection <==> needs_correction_spec(raw@),
        r matches ExtractionPlan::NeedsCorrection { prompt } ==> prompt@ == correction_prompt_for(
            raw@,
        ),
        r matches ExtractionPlan::Accepted { poem, title, next_prompt, method } ==> {
            if layer1_ok(raw@) {
                &&& method == GenerationMethod::Primary
                &&& poem@ == l1_poem(raw@)
                &&& title@ == l1_title(raw@)
                &&& next_prompt@ == l1_next(raw@)
            } else {
                &&& method == GenerationMethod::Fallback
                &&& poem@ == l2_poem(raw@)
                &&& title@ == l2_title(raw@)
                &&& next_prompt@ == l2_next(raw@)
            }
        },
{
    if has_old_markers(raw) {
        return ExtractionPlan::NeedsCorrection { prompt: create_format_correction_prompt(raw) };
    }
    match parse_with_labels(raw) {
        ParseOutcome::Extracted { poem, title, next_prompt } => ExtractionPlan::Accepted {
            poem,
            title,
            next_prompt,
            method: GenerationMethod::Primary,
        },
        ParseOutcome::Rejected { reason: _ } => match parse_with_heuristics(raw) {
            ParseOutcome::Extracted { poem, title, next_prompt } => ExtractionPlan::Accepted {
                poem,
                title,
                next_prompt,
                method: GenerationMethod::Fallback,
            },
            ParseOutcome::Rejected { reason: _ } => ExtractionPlan::NeedsCorrection {
                prompt: create_correction_prompt(raw),
            },
        },
    }
}

/// Resolves a planned correction: the corrected reply is run through the
/// label parser and then the heuristic parser, each success labelled
/// `Corrected`; an absent or still-unparseable reply falls through to
/// algorithmic synthesis on the original raw text.
pub fn resolve_correction(
    raw: &str,
    correction: Option<&str>,
    cycle: u64,
    theme: &str,
    now: u64,
) -> (r: Extraction)
    ensures
        ({
            let s = resolve_spec(
                raw@,
                match correction {
                    Some(c) => Some(c@),
                    None => None,
                },
                cycle as int,
                theme@,
                now as int,
            );
            &&& r.poem@ == s.poem
            &&& r.title@ == s.title
            &&& r.next_prompt@ == s.next_prompt
            &&& r.method == s.method
        }),
{
    match correction {
        Some(c) => {
            match parse_with_labels(c) {
                ParseOutcome::Extracted { poem, title, next_prompt } => {
                    return Extraction {
                        poem,
                        title,
                        next_prompt,
                        method: GenerationMethod::Corrected,
                    };
                },
                ParseOutcome::Rejected { reason: _ } => {},
            }
            match parse_with_heuristics(c) {
                ParseOutcome::Extracted { poem, title, next_prompt } => Extraction {
                    poem,
                    title,
                    next_prompt,
                    method: GenerationMethod::Corrected,
                },
                ParseOutcome::Rejected { reason: _ } => {
                    let (poem, title, next_prompt) = generate_algorithmic_fallback(
                        raw,
                        cycle,
                        theme,
                        now,
                    );
                    Extraction { poem, title, next_prompt, method: GenerationMethod::Algorithmic }
                },
            }
        },
        None => {
            let (poem, title, next_prompt) = generate_algorithmic_fallback(raw, cycle, theme, now);
            Extraction { poem, title, next_prompt, method: GenerationMethod::Algorithmic }
        },
    }
}

/// The whole extraction pipeline as one pure function. `correction` stands
/// for the reply the model would give to the planned correction prompt; it
/// is consulted only on the paths where a correction is planned, so callers
/// that first run `plan_extraction` and only then obtain a correction reply
/// get exactly this result.
pub fn run_extraction(
    raw: &str,
    correction: Option<&str>,
    cycle: u64,
    theme: &str,
    now: u64,
) -> (r: Extraction)
    ensures
        ({
            let s = extraction_spec(
                raw@,
                match correction {
                    Some(c) => Some(c@),
                    None => None,
                },
                cycle as int,
                theme@,
                now as int,
            );
            &&& r.poem@ == s.poem
            &&& r.title@ == s.title
            &&& r.next_prompt@ == s.next_prompt
            &&& r.method == s.method
        }),
{
    match plan_extraction(raw) {
        ExtractionPlan::Accepted { poem, title, next_prompt, method } => Extraction {
            poem,
            title,
            next_prompt,
            method,
        },
        ExtractionPlan::NeedsCorrection { prompt: _ } => resolve_correction(
            raw,
            correction,
            cycle,
            theme,
            now,
        ),
    }
}

} // verus!
