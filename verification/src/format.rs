//! The display formatter: wraps long lines of poem text to a fixed column
//! width, breaking at the last space of a chunk where one exists.

use vstd::prelude::*;
use crate::is_space_char;
use crate::text::{
    join_strs, join_with, lemma_trim_len, line_prefix_len, lines_spec, split_lines, strip_cr,
    trim_spec, trim_str,
};

verus! {

/// Index of the last space character of `s`, if any.
pub open spec fn rfind_space(s: Seq<char>) -> Option<int>
    decreases s.len(),
{
    if s.len() == 0 {
        None
    } else if s.last() == ' ' {
        Some(s.len() - 1)
    } else {
        rfind_space(s.drop_last())
    }
}

pub proof fn lemma_rfind_space(s: Seq<char>)
    ensures
        rfind_space(s) is Some ==> {
            let i = rfind_space(s)->0;
            0 <= i < s.len() && s[i] == ' '
        },
    decreases s.len(),
{
    if s.len() == 0 {
    } else if s.last() == ' ' {
    } else {
        lemma_rfind_space(s.drop_last());
    }
}

/// Where an over-long chunk is broken: at the last space among its first 60
/// characters, unless that space stands at the very beginning, else at 60.
pub open spec fn break_point(rem: Seq<char>) -> int {
    match rfind_space(rem.take(60)) {
        Some(i) => if i > 0 {
            i
        } else {
            60
        },
        None => 60,
    }
}

/// The chunks an over-long line is broken into: pieces of at most 60
/// characters, each trimmed, broken preferably at a space.
pub open spec fn wrap_chunks(rem: Seq<char>) -> Seq<Seq<char>>
    decreases rem.len() via wrap_chunks_decreases
{
    if rem.len() == 0 {
        Seq::empty()
    } else if rem.len() <= 60 {
        seq![rem]
    } else {
        let bp = break_point(rem);
        seq![trim_spec(rem.take(bp))] + wrap_chunks(trim_spec(rem.skip(bp)))
    }
}

#[via_fn]
proof fn wrap_chunks_decreases(rem: Seq<char>) {
    if rem.len() > 60 {
        lemma_rfind_space(rem.take(60));
        lemma_trim_len(rem.skip(break_point(rem)));
    }
}

/// What the formatter emits for one source line.
pub open spec fn line_chunks(line: Seq<char>) -> Seq<Seq<char>> {
    if line.len() <= 60 {
        seq![line]
    } else {
        wrap_chunks(line)
    }
}

/// The chunk lists of all lines, concatenated.
pub open spec fn all_chunks(ls: Seq<Seq<char>>) -> Seq<Seq<char>>
    decreases ls.len(),
{
    if ls.len() == 0 {
        Seq::empty()
    } else {
        line_chunks(ls[0]) + all_chunks(ls.drop_first())
    }
}

/// The fully formatted text: every line wrapped, all chunks joined with
/// newlines.
pub open spec fn format_spec(s: Seq<char>) -> Seq<char> {
    join_with(all_chunks(lines_spec(s)), seq!['\n'])
}

/// Formatting keeps text that begins with a non-whitespace character
/// non-empty, and keeps that character in front: the first chunk of the
/// first line retains it.
pub proof fn lemma_format_nonempty(p: Seq<char>)
    requires
        p.len() > 0,
        !is_space_char(p[0]),
    ensures
        format_spec(p).len() > 0,
        format_spec(p)[0] == p[0],
{
    crate::text::lemma_line_prefix_len(p);
    let lp = line_prefix_len(p) as int;
    assert(p[0] != '\n');
    assert(lp >= 1);
    let ls = lines_spec(p);
    let l0 = if lp == p.len() {
        p
    } else {
        strip_cr(p.take(lp))
    };
    if lp < p.len() {
        assert(p.take(lp).len() == lp);
        assert(p.take(lp)[0] == p[0]);
        assert(p[0] != '\r');
    }
    assert(l0.len() >= 1 && l0[0] == p[0]);
    assert(ls.len() >= 1 && ls[0] == l0);
    let ac = all_chunks(ls);
    assert(ac =~~= line_chunks(ls[0]) + all_chunks(ls.drop_first()));
    let c0 = line_chunks(l0);
    if l0.len() <= 60 {
        assert(c0[0] == l0);
    } else {
        let bp = break_point(l0);
        lemma_rfind_space(l0.take(60));
        assert(1 <= bp <= 60);
        assert(wrap_chunks(l0) =~~= seq![trim_spec(l0.take(bp))] + wrap_chunks(
            trim_spec(l0.skip(bp)),
        ));
        assert(l0.take(bp)[0] == l0[0]);
        crate::text::lemma_trim_bounds(l0.take(bp));
        assert(trim_spec(l0.take(bp)).len() > 0);
        let x = l0.take(bp);
        crate::text::lemma_leading_spaces(x);
        crate::text::lemma_trailing_spaces(x.skip(crate::text::leading_spaces(x) as int));
        assert(crate::text::leading_spaces(x) == 0);
        assert(x.skip(0) =~= x);
        assert(trim_spec(x)[0] == x[0]);
        assert(c0[0] == trim_spec(l0.take(bp)));
    }
    assert(ac.len() >= 1 && ac[0].len() >= 1);
    assert(ac[0][0] == p[0]);
    crate::text::lemma_join_first(ac, seq!['\n']);
}

/// Index of the last space of `s`, or `None`.
fn rfind_space_exec(s: &str) -> (r: Option<usize>)
    ensures
        r is Some <==> rfind_space(s@) is Some,
        r is Some ==> rfind_space(s@) == Some(r->0 as int),
{
    let n = s.unicode_len();
    proof {
        assert(s@.take(n as int) =~= s@);
    }
    let mut k: usize = n;
    loop
        invariant
            0 <= k <= n,
            n == s@.len(),
            rfind_space(s@) == rfind_space(s@.take(k as int)),
        decreases k,
    {
        if k == 0 {
            proof {
                assert(s@.take(0) =~= Seq::<char>::empty());
            }
            return None;
        }
        if s.get_char(k - 1) == ' ' {
            proof {
                assert(s@.take(k as int).last() == s@[k - 1]);
            }
            return Some(k - 1);
        }
        proof {
            assert(s@.take(k as int).last() == s@[k - 1]);
            assert(s@.take(k as int).drop_last() =~= s@.take(k - 1));
        }
        k = k - 1;
    }
}

/// Wraps each line of `poem` to at most 60 characters, breaking over-long
/// lines at the last space of each 60-character window where one exists,
/// trimming the broken pieces, and joining everything with newlines.
pub fn format_poem_lines(poem: &str) -> (r: String)
    ensures
        r@ == format_spec(poem@),
{
    let lines = split_lines(poem);
    let ghost ldv = lines.deep_view();
    let mut formatted: Vec<String> = Vec::new();
    proof {
        assert(ldv.skip(0) =~~= ldv);
        assert(formatted.deep_view() + all_chunks(ldv) =~~= all_chunks(ldv));
    }
    let mut i: usize = 0;
    while i < lines.len()
        invariant
            0 <= i <= lines.len(),
            ldv == lines.deep_view(),
            ldv.len() == lines.len(),
            all_chunks(ldv) =~~= formatted.deep_view() + all_chunks(ldv.skip(i as int)),
        decreases lines.len() - i,
    {
        proof {
            assert(ldv.skip(i as int).drop_first() =~= ldv.skip(i + 1));
            assert(ldv.skip(i as int)[0] == ldv[i as int]);
            assert(all_chunks(ldv.skip(i as int)) =~~= line_chunks(ldv[i as int]) + all_chunks(
                ldv.skip(i + 1),
            ));
            assert(lines[i as int]@ == ldv[i as int]);
        }
        let line = &lines[i];
        if line.as_str().unicode_len() <= 60 {
            let ghost before = formatted.deep_view();
            formatted.push(line.clone());
            proof {
                assert(formatted.deep_view() =~~= before + seq![ldv[i as int]]);
                assert(line_chunks(ldv[i as int]) =~~= seq![ldv[i as int]]);
            }
        } else {
            let mut remaining: String = line.clone();
            while remaining.as_str().unicode_len() > 0
                invariant
                    all_chunks(ldv) =~~= formatted.deep_view() + wrap_chunks(remaining@)
                        + all_chunks(ldv.skip(i + 1)),
                decreases remaining@.len(),
            {
                let rem = remaining.as_str();
                let len = rem.unicode_len();
                if len <= 60 {
                    let ghost before = formatted.deep_view();
                    formatted.push(remaining.clone());
                    proof {
                        assert(wrap_chunks(remaining@) =~~= seq![remaining@]);
                        assert(formatted.deep_view() =~~= before + seq![remaining@]);
                    }
                    remaining = String::new();
                    proof {
                        assert(wrap_chunks(remaining@) =~~= Seq::<Seq<char>>::empty());
                    }
                } else {
                let prefix = rem.substring_char(0, 60);
                proof {
                    assert(prefix@ =~= rem@.take(60));
                }
                let bp: usize = match rfind_space_exec(prefix) {
                    Some(i) => if i > 0 {
                        proof {
                            lemma_rfind_space(prefix@);
                        }
                        i
                    } else {
                        60
                    },
                    None => 60,
                };
                proof {
                    assert(bp == break_point(rem@));
                    assert(0 < bp <= 60);
                }
                let chunk = trim_str(rem.substring_char(0, bp)).to_owned();
                let new_rem = trim_str(rem.substring_char(bp, len)).to_owned();
                proof {
                    assert(rem@.subrange(0, bp as int) =~= rem@.take(bp as int));
                    assert(rem@.subrange(bp as int, len as int) =~= rem@.skip(bp as int));
                    lemma_trim_len(rem@.skip(bp as int));
                    assert(wrap_chunks(rem@) =~~= seq![trim_spec(rem@.take(bp as int))]
                        + wrap_chunks(trim_spec(rem@.skip(bp as int))));
                }
                let ghost before = formatted.deep_view();
                formatted.push(chunk);
                proof {
                    assert(formatted.deep_view() =~~= before + seq![trim_spec(
                        rem@.take(bp as int),
                    )]);
                }
                    remaining = new_rem;
                }
            }
            proof {
                assert(wrap_chunks(remaining@) =~~= Seq::<Seq<char>>::empty());
            }
        }
        i = i + 1;
    }
    proof {
        assert(all_chunks(ldv.skip(ldv.len() as int)) =~~= Seq::<Seq<char>>::empty());
        assert(formatted.deep_view() =~~= all_chunks(ldv));
        reveal_strlit("\n");
        assert("\n"@ =~= seq!['\n']);
    }
    join_strs(&formatted, "\n")
}

} // verus!
