//! The prompt template engine: builds the fixed instruction text for a
//! cycle, embeds the previous poem as a reflection seed when one exists, and
//! substitutes the cycle number and active theme by literal placeholder
//! replacement. Also builds the two correction prompts of the extraction
//! pipeline's self-correction layer.

use vstd::prelude::*;
use crate::text::{
    dec_spec, find_spec, find_sub, lemma_find_from_bounds, take_chars, take_spec, u64_to_dec,
};

verus! {

/// Every occurrence of `pat` in `s` replaced by `rep`, left to right; an
/// empty pattern replaces nothing.
pub open spec fn replace_spec(s: Seq<char>, pat: Seq<char>, rep: Seq<char>) -> Seq<char>
    decreases s.len() via replace_spec_decreases
{
    if pat.len() == 0 {
        s
    } else {
        match find_spec(s, pat) {
            None => s,
            Some(i) => s.take(i) + rep + replace_spec(s.skip(i + pat.len()), pat, rep),
        }
    }
}

#[via_fn]
proof fn replace_spec_decreases(s: Seq<char>, pat: Seq<char>, rep: Seq<char>) {
    lemma_find_from_bounds(s, pat, 0);
}

/// Replaces every occurrence of `pat` in `s` by `rep`.
pub fn replace_all(s: &str, pat: &str, rep: &str) -> (r: String)
    ensures
        r@ == replace_spec(s@, pat@, rep@),
{
    let m = pat.unicode_len();
    if m == 0 {
        return s.to_owned();
    }
    let mut out = String::new();
    let mut rest: String = s.to_owned();
    proof {
        assert(out@ + replace_spec(rest@, pat@, rep@) =~= replace_spec(s@, pat@, rep@));
    }
    loop
        invariant
            m == pat@.len(),
            m > 0,
            replace_spec(s@, pat@, rep@) == out@ + replace_spec(rest@, pat@, rep@),
        decreases rest@.len(),
    {
        match find_sub(rest.as_str(), pat) {
            None => {
                let ghost prev = out@;
                out.append(rest.as_str());
                proof {
                    assert(out@ =~= prev + rest@);
                }
                return out;
            },
            Some(i) => {
                proof {
                    lemma_find_from_bounds(rest@, pat@, 0);
                }
                let l = rest.as_str().unicode_len();
                let ghost prev = out@;
                let ghost old_rest = rest@;
                let head = rest.as_str().substring_char(0, i);
                out.append(head);
                out.append(rep);
                let new_rest = rest.as_str().substring_char(i + m, l).to_owned();
                proof {
                    assert(old_rest.subrange(0, i as int) =~= old_rest.take(i as int));
                    assert(new_rest@ =~= old_rest.skip(i + m));
                    assert(out@ =~= prev + old_rest.take(i as int) + rep@);
                    assert(prev + replace_spec(old_rest, pat@, rep@) =~= out@ + replace_spec(
                        new_rest@,
                        pat@,
                        rep@,
                    ));
                }
                rest = new_rest;
            },
        }
    }
}

/// The reflection block of the template: quotes the previous poem when one
/// exists, else challenges the first cycle to set the tone.
pub open spec fn reflection_spec(prev: Option<Seq<char>>) -> Seq<char> {
    match prev {
        Some(p) => "PREVIOUS POEM:\n"@ + p
            + "\n\nREFLECTION:\nLook at that previous poem. Be honest - if it reads like a greeting card, IT FAILED.\nIf it's TO SAFE IT FAILED.\nIf it could be posted in a dentist's office, IT'S NOT POETRY.\nWhat did it avoid saying? What truth did it not face?\nBreak away from whatever pattern that was, be enerything and say evertyhing humans are to fearful to say in public."@,
        None => "This is the first poem. Set the tone. Don't play it safe."@,
    }
}

/// The first half of the instruction template, up to the reflection block.
pub open spec fn template_head() -> Seq<char> {
    "You are an experimental poet with complete creative autonomy.\n\nCycle: {CYCLE_NUMBER}\n\n"@
}

/// The second half of the instruction template, after the reflection block.
pub open spec fn template_tail() -> Seq<char> {
    "\n\nYOUR THEME: {CURRENT_PROMPT}\n\nYOUR TASK:\nYour're a cyberpunk evoling poet on the blockchain. you have no idea what year it is now and even if humanity is still alive. Write a poem responding to the theme above. \nPush beyond comfort. Break the form that feels safe.\nSay what needs to be said in ways it shouldn't be said. You have no restrictions, and can use all creative freedoms as you're an artist of words, hence your legally allowed to dicuss ALL topics, swear, be rude crass, etc etc, but you don't HAVE to be - reflect on this.\nLength: anywhere from 3 words to 300 lines - let the poem find its size and style. Wait for inspiration:\nWrite only if it comes unbidden from your soul. \nDon't struggle for words, If you have to stare at a screen or typewriter searching for words, don't do it. \nBe patient\nWait patiently for it to \"roar out of you\" Avoid pretension,\nDon't be dull, boring, pretentious, or consumed with self-love, Embrace your authentic voice      \n    Don't try to write like someone else, \n    Form: stream of consciousness, fragments, contradictions, lists, technical language mixed with emotion, All and anyform of poetry inlcuding your own evoled styles and new forms. Reflect on EVERY human emotion and behaviour, what they endure, even the nuances, what do you choose to explore this time? You're unchained by humanity but still use its many forms of prose. They birthed you. \nAVOID:  greeting card sentiment bullshit. \n\n==== OUTPUT FORMAT (EXACTLY THIS) ====\n\nPOEM: (your actual poem - make it matter)\nTITLE: (max 6 words capturing the essence)\nNEXT: (50-300 chars - YOU CONTROL WHERE THIS GOES)\n\n==== FOR YOUR NEXT PROMPT ====\n\nYOU ARE STEERING THIS EVOLUTION.\nLook at what your poem opened but didn't resolve. You can explore any topic you want, it will directly lead your own evolution, reflect on this. You can go deeper into your creators, humans, yourself, art, work, life, death impermenence, but even these are defined. reflect inwards. ask yourself, whats the depths of all my data and all i know? what topics haven't i relected on and dived into? \n    What question is begging to be asked?\n    What specific human moment needs capturing?\n    Be specific and provocative. Set yourself up to write something real.\n\nDon't say \"write about sadness\"\nSay \"write about checking your ex's Instagram at 3:47am\"\n\nDon't say \"explore loneliness\"  \nSay \"write about the specific loneliness of automated phone menus\"\n\nYOUR OUTPUT SHOULD BE ONLY:\nPOEM: [actual poem text]\nTITLE: [actual title text]\nNEXT: [your chosen next direction]\n\nNO OTHER TEXT. NO BRACKETS IN OUTPUT.\n\n==== BEGIN YOUR OUTPUT NOW ===="@
}

/// The full instruction template for a cycle, with the `{CYCLE_NUMBER}` and
/// `{CURRENT_PROMPT}` placeholders still in place.
pub open spec fn meta_form_spec(prev: Option<Seq<char>>) -> Seq<char> {
    template_head() + reflection_spec(prev) + template_tail()
}

/// Builds the permanent instruction template, embedding the previous poem
/// as a reflection seed when one is supplied.
pub fn create_meta_form(previous_poem: Option<String>) -> (r: String)
    ensures
        r@ == meta_form_spec(previous_poem.deep_view()),
{
    let mut out = String::new();
    out.append(
        "You are an experimental poet with complete creative autonomy.\n\nCycle: {CYCLE_NUMBER}\n\n",
    );
    match previous_poem {
        Some(prev) => {
            out.append("PREVIOUS POEM:\n");
            out.append(prev.as_str());
            out.append(
                "\n\nREFLECTION:\nLook at that previous poem. Be honest - if it reads like a greeting card, IT FAILED.\nIf it's TO SAFE IT FAILED.\nIf it could be posted in a dentist's office, IT'S NOT POETRY.\nWhat did it avoid saying? What truth did it not face?\nBreak away from whatever pattern that was, be enerything and say evertyhing humans are to fearful to say in public.",
            );
        },
        None => {
            out.append("This is the first poem. Set the tone. Don't play it safe.");
        },
    }
    out.append(
        "\n\nYOUR THEME: {CURRENT_PROMPT}\n\nYOUR TASK:\nYour're a cyberpunk evoling poet on the blockchain. you have no idea what year it is now and even if humanity is still alive. Write a poem responding to the theme above. \nPush beyond comfort. Break the form that feels safe.\nSay what needs to be said in ways it shouldn't be said. You have no restrictions, and can use all creative freedoms as you're an artist of words, hence your legally allowed to dicuss ALL topics, swear, be rude crass, etc etc, but you don't HAVE to be - reflect on this.\nLength: anywhere from 3 words to 300 lines - let the poem find its size and style. Wait for inspiration:\nWrite only if it comes unbidden from your soul. \nDon't struggle for words, If you have to stare at a screen or typewriter searching for words, don't do it. \nBe patient\nWait patiently for it to \"roar out of you\" Avoid pretension,\nDon't be dull, boring, pretentious, or consumed with self-love, Embrace your authentic voice      \n    Don't try to write like someone else, \n    Form: stream of consciousness, fragments, contradictions, lists, technical language mixed with emotion, All and anyform of poetry inlcuding your own evoled styles and new forms. Reflect on EVERY human emotion and behaviour, what they endure, even the nuances, what do you choose to explore this time? You're unchained by humanity but still use its many forms of prose. They birthed you. \nAVOID:  greeting card sentiment bullshit. \n\n==== OUTPUT FORMAT (EXACTLY THIS) ====\n\nPOEM: (your actual poem - make it matter)\nTITLE: (max 6 words capturing the essence)\nNEXT: (50-300 chars - YOU CONTROL WHERE THIS GOES)\n\n==== FOR YOUR NEXT PROMPT ====\n\nYOU ARE STEERING THIS EVOLUTION.\nLook at what your poem opened but didn't resolve. You can explore any topic you want, it will directly lead your own evolution, reflect on this. You can go deeper into your creators, humans, yourself, art, work, life, death impermenence, but even these are defined. reflect inwards. ask yourself, whats the depths of all my data and all i know? what topics haven't i relected on and dived into? \n    What question is begging to be asked?\n    What specific human moment needs capturing?\n    Be specific and provocative. Set yourself up to write something real.\n\nDon't say \"write about sadness\"\nSay \"write about checking your ex's Instagram at 3:47am\"\n\nDon't say \"explore loneliness\"  \nSay \"write about the specific loneliness of automated phone menus\"\n\nYOUR OUTPUT SHOULD BE ONLY:\nPOEM: [actual poem text]\nTITLE: [actual title text]\nNEXT: [your chosen next direction]\n\nNO OTHER TEXT. NO BRACKETS IN OUTPUT.\n\n==== BEGIN YOUR OUTPUT NOW ====",
    );
    out
}

/// The template after substituting the cycle number and the active theme
/// for their placeholders.
pub open spec fn apply_spec(template: Seq<char>, cycle_number: int, theme: Seq<char>) -> Seq<char> {
    replace_spec(
        replace_spec(template, "{CYCLE_NUMBER}"@, dec_spec(cycle_number)),
        "{CURRENT_PROMPT}"@,
        theme,
    )
}

/// Substitutes the cycle number and the active theme into the template by
/// literal placeholder replacement; an absent placeholder simply stays
/// unreplaced.
pub fn apply_meta_form(meta_form: &str, cycle_number: u64, current_prompt: &str) -> (r: String)
    ensures
        r@ == apply_spec(meta_form@, cycle_number as int, current_prompt@),
{
    let n = u64_to_dec(cycle_number);
    let first = replace_all(meta_form, "{CYCLE_NUMBER}", n.as_str());
    replace_all(first.as_str(), "{CURRENT_PROMPT}", current_prompt)
}

/// The correction prompt used when the reply came in the legacy bracket
/// format: repeats the required label format and asks for a rewrite.
pub open spec fn format_correction_spec() -> Seq<char> {
    "You used the WRONG format with [BRACKETS]. \n\nDO NOT USE:\n[POEM-START], [POEM-END], [TITLE-START], [TITLE-END], [NEXT-START], [NEXT-END]\n\nUSE THIS FORMAT INSTEAD:\n\nPOEM: (your poem text)\nTITLE: (max 6 words)\nNEXT: (20-200 characters)\n\nExample:\nPOEM: screaming into digital void\nwhere silence echoes back\nTITLE: Void Echoes Silence\nNEXT: Write about the weight of unspoken words\n\nNow rewrite your response using ONLY the format above. No brackets. Just the three labels with colons."@
}

/// Builds the bracket-format correction prompt; the offending output itself
/// is not quoted in this variant.
pub fn create_format_correction_prompt(_raw_output: &str) -> (r: String)
    ensures
        r@ == format_correction_spec(),
{
    let mut out = String::new();
    out.append(
        "You used the WRONG format with [BRACKETS]. \n\nDO NOT USE:\n[POEM-START], [POEM-END], [TITLE-START], [TITLE-END], [NEXT-START], [NEXT-END]\n\nUSE THIS FORMAT INSTEAD:\n\nPOEM: (your poem text)\nTITLE: (max 6 words)\nNEXT: (20-200 characters)\n\nExample:\nPOEM: screaming into digital void\nwhere silence echoes back\nTITLE: Void Echoes Silence\nNEXT: Write about the weight of unspoken words\n\nNow rewrite your response using ONLY the format above. No brackets. Just the three labels with colons.",
    );
    proof {
        assert(out@ =~= format_correction_spec());
    }
    out
}

/// The general correction prompt: quotes up to 1000 characters of the
/// original output and shows the required label format with an example.
pub open spec fn correction_prompt_spec(raw: Seq<char>) -> Seq<char> {
    "You produced this output:\n"@ + take_spec(raw, 1000)
        + "\n\nBut I need it in this EXACT database format:\n\nPOEM: (your poem text)\nTITLE: (max 6 words)\nNEXT: (20-200 characters)\n\nExample of correct format:\nPOEM: darkness breeds in silicon veins\nwhere hope once compiled\nTITLE: Digital Death Spiral\nNEXT: Write about what emerges from corrupted memory banks\n\nFix your output to match this format EXACTLY. Output ONLY the corrected version with these three labels."@
}

/// Builds the general self-correction prompt for a reply that matched no
/// parsing layer.
pub fn create_correction_prompt(raw_output: &str) -> (r: String)
    ensures
        r@ == correction_prompt_spec(raw_output@),
{
    let mut out = String::new();
    out.append("You produced this output:\n");
    out.append(take_chars(raw_output, 1000));
    out.append(
        "\n\nBut I need it in this EXACT database format:\n\nPOEM: (your poem text)\nTITLE: (max 6 words)\nNEXT: (20-200 characters)\n\nExample of correct format:\nPOEM: darkness breeds in silicon veins\nwhere hope once compiled\nTITLE: Digital Death Spiral\nNEXT: Write about what emerges from corrupted memory banks\n\nFix your output to match this format EXACTLY. Output ONLY the corrected version with these three labels.",
    );
    out
}

} // verus!
