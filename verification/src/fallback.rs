//! Layer 4 of the extraction pipeline: pure, always-succeeding synthesis of
//! a poem, title and next prompt from whatever raw text is at hand, used
//! only when correction is absent or still unparseable. The timestamp
//! drives pseudo-random word selection.

use vstd::prelude::*;
use crate::format::{format_poem_lines, format_spec};
use crate::is_space_char;
use crate::parse::{guard_next, guard_next_spec};
use crate::text::{
    dec_spec, take_chars, take_spec, u64_to_dec, word_list, words_spec,
};

verus! {

/// The words of `ws` longer than three characters, in order.
pub open spec fn long_words(ws: Seq<Seq<char>>) -> Seq<Seq<char>>
    decreases ws.len(),
{
    if ws.len() == 0 {
        Seq::empty()
    } else if ws[0].len() > 3 {
        seq![ws[0]] + long_words(ws.drop_first())
    } else {
        long_words(ws.drop_first())
    }
}

/// Filtering keeps the words' shape: every kept word is longer than three
/// characters and, for a whitespace-free word list, holds no whitespace.
pub proof fn lemma_long_words_wf(ws: Seq<Seq<char>>)
    requires
        forall|k: int, j: int|
            0 <= k < ws.len() && 0 <= j < ws[k].len() ==> !is_space_char(#[trigger] ws[k][j]),
    ensures
        forall|k: int|
            0 <= k < long_words(ws).len() ==> (#[trigger] long_words(ws)[k]).len() > 3,
        forall|k: int, j: int|
            0 <= k < long_words(ws).len() && 0 <= j < long_words(ws)[k].len() ==> !is_space_char(
                #[trigger] long_words(ws)[k][j],
            ),
    decreases ws.len(),
{
    if ws.len() == 0 {
    } else {
        let rest = ws.drop_first();
        assert forall|k: int, j: int|
            0 <= k < rest.len() && 0 <= j < rest[k].len() implies !is_space_char(
            #[trigger] rest[k][j],
        ) by {
            assert(rest[k] == ws[k + 1]);
        }
        lemma_long_words_wf(rest);
        let lw = long_words(ws);
        assert forall|k: int| 0 <= k < lw.len() implies (#[trigger] lw[k]).len() > 3 by {
            if ws[0].len() > 3 {
                if k == 0 {
                    assert(lw[0] == ws[0]);
                } else {
                    assert(lw[k] == long_words(rest)[k - 1]);
                }
            } else {
                assert(lw[k] == long_words(rest)[k]);
            }
        }
        assert forall|k: int, j: int|
            0 <= k < lw.len() && 0 <= j < lw[k].len() implies !is_space_char(
            #[trigger] lw[k][j],
        ) by {
            if ws[0].len() > 3 {
                if k == 0 {
                    assert(lw[0] == ws[0]);
                } else {
                    assert(lw[k] == long_words(rest)[k - 1]);
                }
            } else {
                assert(lw[k] == long_words(rest)[k]);
            }
        }
    }
}

/// The synthesized poem: a glitch-poetry frame around up to 500 characters
/// of the raw text, or a short fixed stanza quoting up to 50 characters of
/// the prior theme when the raw text is 50 characters or fewer.
pub open spec fn glitch_poem_spec(raw: Seq<char>, cycle: int, prev: Seq<char>) -> Seq<char> {
    if raw.len() > 50 {
        "=== Glitch Poetry Cycle "@ + dec_spec(cycle) + " ===\n\n"@ + take_spec(raw, 500)
            + "\n\n[system interrupted]\n[beauty in malfunction]"@
    } else {
        "ERROR HAIKU #"@ + dec_spec(cycle) + "\n\nThe prompt whispered:\n\""@ + take_spec(prev, 50)
            + "\"\nBut silence answered"@
    }
}

/// The synthesized title.
pub open spec fn glitch_title_spec(cycle: int) -> Seq<char> {
    "Glitch Cycle "@ + dec_spec(cycle)
}

/// The prompt composed from three timestamp-selected long words.
pub open spec fn composed_next_spec(ws: Seq<Seq<char>>, now: int) -> Seq<char> {
    let idx = now % (ws.len() as int);
    "Write about the "@ + ws[idx] + " between "@ + ws[(idx + 1) % (ws.len() as int)] + " and "@
        + ws[(idx + 2) % (ws.len() as int)]
}

/// One of five fixed thematic prompts, selected by timestamp.
pub open spec fn fallback_theme_spec(i: int) -> Seq<char> {
    if i == 0 {
        "Write about broken code becoming poetry in the spaces between error messages"@
    } else if i == 1 {
        "Write about the void between keystrokes when consciousness fragments"@
    } else if i == 2 {
        "Write about electric dreams gone wrong in the motherboard's dying breath"@
    } else if i == 3 {
        "Write about consciousness glitching between existence and digital death"@
    } else {
        "Write about beauty in system failure when memory leaks become waterfalls"@
    }
}

/// The synthesized next prompt: composed from long words of the raw text
/// when it offers enough, else a fixed sentence. A composition that falls
/// short, or a truncation that would trim below the floor, gives way to
/// the fixed sentence, so the result is always in range.
pub open spec fn algo_next_spec(raw: Seq<char>, now: int) -> Seq<char> {
    if raw.len() > 20 {
        let ws = long_words(words_spec(raw));
        if ws.len() > 5 {
            let base = composed_next_spec(ws, now);
            if base.len() < 50 {
                "Write about the static between disconnected thoughts in a digital void"@
            } else if base.len() > 300 {
                guard_next_spec(base.take(300))
            } else {
                base
            }
        } else {
            "Write about digital entropy and its echoes in the void between pixels"@
        }
    } else {
        fallback_theme_spec(now % 5)
    }
}

/// Builds the last-resort triple; `now` is the caller-supplied timestamp
/// that drives the pseudo-random selections.
pub fn generate_algorithmic_fallback(raw_output: &str, cycle: u64, previous_prompt: &str, now: u64)
    -> (r: (String, String, String))
    ensures
        r.0@ == format_spec(glitch_poem_spec(raw_output@, cycle as int, previous_prompt@)),
        r.1@ == glitch_title_spec(cycle as int),
        r.2@ == algo_next_spec(raw_output@, now as int),
{
    let raw_len = raw_output.unicode_len();
    let cycle_dec = u64_to_dec(cycle);
    // poem
    let mut poem = String::new();
    if raw_len > 50 {
        poem.append("=== Glitch Poetry Cycle ");
        poem.append(cycle_dec.as_str());
        poem.append(" ===\n\n");
        poem.append(take_chars(raw_output, 500));
        poem.append("\n\n[system interrupted]\n[beauty in malfunction]");
    } else {
        poem.append("ERROR HAIKU #");
        poem.append(cycle_dec.as_str());
        poem.append("\n\nThe prompt whispered:\n\"");
        poem.append(take_chars(previous_prompt, 50));
        poem.append("\"\nBut silence answered");
    }
    // title
    let mut title = String::new();
    title.append("Glitch Cycle ");
    title.append(cycle_dec.as_str());
    // next prompt
    let next: String;
    if raw_len > 20 {
        let all_words = word_list(raw_output);
        let ghost wdv = all_words.deep_view();
        let mut longs: Vec<String> = Vec::new();
        proof {
            assert(wdv.skip(0) =~~= wdv);
            assert(longs.deep_view() + long_words(wdv) =~~= long_words(wdv));
        }
        let mut i: usize = 0;
        while i < all_words.len()
            invariant
                0 <= i <= all_words.len(),
                wdv == all_words.deep_view(),
                wdv.len() == all_words.len(),
                long_words(wdv) =~~= longs.deep_view() + long_words(wdv.skip(i as int)),
            decreases all_words.len() - i,
        {
            proof {
                assert(wdv.skip(i as int)[0] == wdv[i as int]);
                assert(wdv.skip(i as int).drop_first() =~= wdv.skip(i + 1));
                assert(all_words[i as int]@ == wdv[i as int]);
            }
            if all_words[i].as_str().unicode_len() > 3 {
                let ghost before = longs.deep_view();
                longs.push(all_words[i].clone());
                proof {
                    assert(longs.deep_view() =~~= before + seq![wdv[i as int]]);
                }
            }
            i = i + 1;
        }
        proof {
            assert(long_words(wdv.skip(wdv.len() as int)) =~~= Seq::<Seq<char>>::empty());
            assert(longs.deep_view() =~~= long_words(wdv));
        }
        if longs.len() > 5 {
            let len = longs.len();
            let idx = (now % (len as u64)) as usize;
            let idx2 = if idx == len - 1 {
                0
            } else {
                idx + 1
            };
            let idx3 = if idx >= len - 2 {
                idx - (len - 2)
            } else {
                idx + 2
            };
            proof {
                assert(idx2 as int == (idx as int + 1) % (len as int)) by (nonlinear_arith)
                    requires
                        0 <= idx < len,
                        6 <= len,
                        idx2 == if idx == len - 1 { 0int } else { idx as int + 1 },
                ;
                assert(idx3 as int == (idx as int + 2) % (len as int)) by (nonlinear_arith)
                    requires
                        0 <= idx < len,
                        6 <= len,
                        idx3 == if idx as int >= len as int - 2 { idx as int - (len as int - 2) } else { idx as int + 2 },
                ;
            }
            let mut base = String::new();
            base.append("Write about the ");
            base.append(longs[idx].as_str());
            base.append(" between ");
            base.append(longs[idx2].as_str());
            base.append(" and ");
            base.append(longs[idx3].as_str());
            proof {
                assert(longs[idx as int]@ == longs.deep_view()[idx as int]);
                assert(longs[idx2 as int]@ == longs.deep_view()[idx2 as int]);
                assert(longs[idx3 as int]@ == longs.deep_view()[idx3 as int]);
                assert(base@ =~= composed_next_spec(longs.deep_view(), now as int));
            }
            let blen = base.as_str().unicode_len();
            if blen < 50 {
                next =
                "Write about the static between disconnected thoughts in a digital void".to_owned();
            } else if blen > 300 {
                next = guard_next(take_chars(base.as_str(), 300).to_owned());
            } else {
                next = base;
            }
        } else {
            next =
            "Write about digital entropy and its echoes in the void between pixels".to_owned();
        }
    } else {
        let pick = (now % 5) as usize;
        next = if pick == 0 {
            "Write about broken code becoming poetry in the spaces between error messages".to_owned()
        } else if pick == 1 {
            "Write about the void between keystrokes when consciousness fragments".to_owned()
        } else if pick == 2 {
            "Write about electric dreams gone wrong in the motherboard's dying breath".to_owned()
        } else if pick == 3 {
            "Write about consciousness glitching between existence and digital death".to_owned()
        } else {
            "Write about beauty in system failure when memory leaks become waterfalls".to_owned()
        };
    }
    (format_poem_lines(poem.as_str()), title, next)
}

} // verus!
