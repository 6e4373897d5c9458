//! Character-sequence utilities: searching, trimming, splitting into words
//! and lines, and joining. All contracts are stated over `Seq<char>` views.

use vstd::prelude::*;
use crate::is_space;
use crate::is_space_char;

verus! {

/// `pat` occurs in `s` starting at index `i`.
pub open spec fn match_at(s: Seq<char>, pat: Seq<char>, i: int) -> bool {
    0 <= i && i + pat.len() <= s.len() && s.subrange(i, i + pat.len() as int) == pat
}

/// Index of the first occurrence of `pat` in `s` at or after `i`.
pub open spec fn find_from(s: Seq<char>, pat: Seq<char>, i: int) -> Option<int>
    decreases s.len() - i,
{
    if i < 0 || i + pat.len() > s.len() {
        None
    } else if pat.len() == 0 {
        Some(i)
    } else if match_at(s, pat, i) {
        Some(i)
    } else {
        find_from(s, pat, i + 1)
    }
}

/// Index of the first occurrence of `pat` in `s`, if any.
pub open spec fn find_spec(s: Seq<char>, pat: Seq<char>) -> Option<int> {
    find_from(s, pat, 0)
}

/// `pat` occurs somewhere in `s`.
pub open spec fn contains_spec(s: Seq<char>, pat: Seq<char>) -> bool {
    find_spec(s, pat) is Some
}

/// A found index is in range and marks an occurrence.
pub proof fn lemma_find_from_bounds(s: Seq<char>, pat: Seq<char>, lo: int)
    ensures
        find_from(s, pat, lo) is Some ==> {
            let i = find_from(s, pat, lo)->0;
            lo <= i && i + pat.len() <= s.len() && match_at(s, pat, i)
        },
    decreases s.len() - lo,
{
    if lo < 0 || lo + pat.len() > s.len() {
    } else if pat.len() == 0 {
        assert(s.subrange(lo, lo) =~= pat);
    } else if match_at(s, pat, lo) {
    } else {
        lemma_find_from_bounds(s, pat, lo + 1);
    }
}

/// Number of leading whitespace characters of `s`.
pub open spec fn leading_spaces(s: Seq<char>) -> nat
    decreases s.len(),
{
    if s.len() == 0 || !is_space_char(s[0]) {
        0
    } else {
        1 + leading_spaces(s.drop_first())
    }
}

/// Number of trailing whitespace characters of `s`.
pub open spec fn trailing_spaces(s: Seq<char>) -> nat
    decreases s.len(),
{
    if s.len() == 0 || !is_space_char(s.last()) {
        0
    } else {
        1 + trailing_spaces(s.drop_last())
    }
}

/// `s` without leading and trailing whitespace.
pub open spec fn trim_spec(s: Seq<char>) -> Seq<char> {
    let t = s.skip(leading_spaces(s) as int);
    t.take(t.len() - trailing_spaces(t))
}

pub proof fn lemma_leading_spaces(s: Seq<char>)
    ensures
        leading_spaces(s) <= s.len(),
        forall|k: int| 0 <= k < leading_spaces(s) ==> is_space_char(s[k]),
        leading_spaces(s) < s.len() ==> !is_space_char(s[leading_spaces(s) as int]),
    decreases s.len(),
{
    if s.len() == 0 || !is_space_char(s[0]) {
    } else {
        lemma_leading_spaces(s.drop_first());
        assert forall|k: int| 0 <= k < leading_spaces(s) implies is_space_char(s[k]) by {
            if k > 0 {
                assert(s.drop_first()[k - 1] == s[k]);
            }
        }
        if leading_spaces(s) < s.len() {
            assert(s.drop_first()[leading_spaces(s) as int - 1] == s[leading_spaces(s) as int]);
        }
    }
}

pub proof fn lemma_trailing_spaces(s: Seq<char>)
    ensures
        trailing_spaces(s) <= s.len(),
        forall|k: int| s.len() - trailing_spaces(s) <= k < s.len() ==> is_space_char(s[k]),
        trailing_spaces(s) < s.len() ==> !is_space_char(s[s.len() - trailing_spaces(s) - 1]),
    decreases s.len(),
{
    if s.len() == 0 || !is_space_char(s.last()) {
    } else {
        lemma_trailing_spaces(s.drop_last());
        assert forall|k: int| s.len() - trailing_spaces(s) <= k < s.len() implies is_space_char(
            s[k],
        ) by {
            if k < s.len() - 1 {
                assert(s.drop_last()[k] == s[k]);
            }
        }
        if trailing_spaces(s) < s.len() {
            assert(s.drop_last()[s.len() - trailing_spaces(s) - 1] == s[s.len() - trailing_spaces(
                s,
            ) - 1]);
        }
    }
}

/// A characterization of `leading_spaces` by its boundary: if the first `a`
/// characters are whitespace and the one after (if any) is not, then
/// `leading_spaces(s) == a`.
pub proof fn lemma_leading_spaces_is(s: Seq<char>, a: int)
    requires
        0 <= a <= s.len(),
        forall|k: int| 0 <= k < a ==> is_space_char(s[k]),
        a < s.len() ==> !is_space_char(s[a]),
    ensures
        leading_spaces(s) == a,
    decreases s.len(),
{
    if a == 0 {
    } else {
        assert(is_space_char(s[0]));
        lemma_leading_spaces_is(s.drop_first(), a - 1);
    }
}

pub proof fn lemma_trailing_spaces_is(s: Seq<char>, b: int)
    requires
        0 <= b <= s.len(),
        forall|k: int| s.len() - b <= k < s.len() ==> is_space_char(s[k]),
        b < s.len() ==> !is_space_char(s[s.len() - b - 1]),
    ensures
        trailing_spaces(s) == b,
    decreases s.len(),
{
    if b == 0 {
    } else {
        assert(is_space_char(s.last()));
        lemma_trailing_spaces_is(s.drop_last(), b - 1);
    }
}

/// Trimming yields a subsequence, so it never grows, and an empty result
/// means the input was all whitespace.
pub proof fn lemma_trim_len(s: Seq<char>)
    ensures
        trim_spec(s).len() <= s.len(),
{
    lemma_leading_spaces(s);
    lemma_trailing_spaces(s.skip(leading_spaces(s) as int));
}

/// The trimmed sequence of a string that holds any non-whitespace character
/// is non-empty, begins and ends with non-whitespace, and conversely.
pub proof fn lemma_trim_bounds(s: Seq<char>)
    ensures
        trim_spec(s).len() > 0 <==> exists|k: int| 0 <= k < s.len() && !is_space_char(s[k]),
        trim_spec(s).len() > 0 ==> !is_space_char(trim_spec(s)[0]) && !is_space_char(
            trim_spec(s).last(),
        ),
{
    let a = leading_spaces(s) as int;
    lemma_leading_spaces(s);
    let t = s.skip(a);
    let b = trailing_spaces(t) as int;
    lemma_trailing_spaces(t);
    if trim_spec(s).len() > 0 {
        assert(!is_space_char(s[a]));
        assert(trim_spec(s)[0] == s[a]);
        assert(trim_spec(s).last() == t[t.len() - b - 1]);
    } else {
        assert forall|k: int| 0 <= k < s.len() implies is_space_char(s[k]) by {
            if k < a {
            } else {
                assert(t[k - a] == s[k]);
                assert(t.len() - b <= k - a < t.len());
            }
        }
    }
}

/// Returns a slice of `s` with leading and trailing whitespace removed.
pub fn trim_str(s: &str) -> (r: &str)
    ensures
        r@ == trim_spec(s@),
{
    let n = s.unicode_len();
    let mut a: usize = 0;
    while a < n && crate::is_space(s.get_char(a))
        invariant
            0 <= a <= n,
            n == s@.len(),
            forall|k: int| 0 <= k < a ==> is_space_char(s@[k]),
        decreases n - a,
    {
        a = a + 1;
    }
    proof {
        lemma_leading_spaces_is(s@, a as int);
    }
    let mut b: usize = n;
    while b > a && crate::is_space(s.get_char(b - 1))
        invariant
            a <= b <= n,
            n == s@.len(),
            forall|k: int| 0 <= k < a ==> is_space_char(s@[k]),
            forall|k: int| b <= k < n ==> is_space_char(s@[k]),
        decreases b,
    {
        b = b - 1;
    }
    let r = s.substring_char(a, b);
    proof {
        let t = s@.skip(a as int);
        assert forall|k: int| (b - a) <= k < t.len() implies is_space_char(t[k]) by {
            assert(t[k] == s@[k + a]);
        }
        if b > a {
            assert(t[b - a - 1] == s@[b as int - 1]);
        }
        lemma_trailing_spaces_is(t, n as int - b as int);
        assert(r@ =~= trim_spec(s@));
    }
    r
}

/// Returns the index of the first occurrence of `pat` in `s`, counted in
/// characters, or `None` if `pat` does not occur.
pub fn find_sub(s: &str, pat: &str) -> (r: Option<usize>)
    ensures
        r is Some <==> find_spec(s@, pat@) is Some,
        r is Some ==> find_spec(s@, pat@) == Some(r->0 as int),
{
    let n = s.unicode_len();
    let m = pat.unicode_len();
    if m > n {
        return None;
    }
    if m == 0 {
        return Some(0);
    }
    let mut i: usize = 0;
    loop
        invariant
            0 <= i,
            i <= n - m + 1,
            m <= n,
            0 < m,
            n == s@.len(),
            m == pat@.len(),
            find_spec(s@, pat@) == find_from(s@, pat@, i as int),
        decreases n - i,
    {
        if i > n - m {
            return None;
        }
        let mut j: usize = 0;
        while j < m && s.get_char(i + j) == pat.get_char(j)
            invariant
                0 <= j <= m,
                i + m <= n,
                n == s@.len(),
                m == pat@.len(),
                forall|k: int| 0 <= k < j ==> s@[i + k] == pat@[k],
            decreases m - j,
        {
            j = j + 1;
        }
        if j == m {
            proof {
                assert(s@.subrange(i as int, i + m) =~= pat@);
            }
            return Some(i);
        }
        proof {
            assert(s@.subrange(i as int, i + m)[j as int] == s@[i + j]);
            assert(!match_at(s@, pat@, i as int));
        }
        i = i + 1;
    }
}

/// `pat` occurs somewhere in `s`.
pub fn contains_sub(s: &str, pat: &str) -> (r: bool)
    ensures
        r == contains_spec(s@, pat@),
{
    find_sub(s, pat).is_some()
}

/// `s` truncated to its first `n` characters.
pub open spec fn take_spec(s: Seq<char>, n: int) -> Seq<char> {
    if s.len() <= n {
        s
    } else {
        s.take(n)
    }
}

/// Returns the prefix of `s` holding at most `n` characters.
pub fn take_chars(s: &str, n: usize) -> (r: &str)
    ensures
        r@ == take_spec(s@, n as int),
{
    let len = s.unicode_len();
    if len <= n {
        s
    } else {
        s.substring_char(0, n)
    }
}

/// Length of the leading run of non-whitespace characters of `s`.
pub open spec fn word_prefix_len(s: Seq<char>) -> nat
    decreases s.len(),
{
    if s.len() == 0 || is_space_char(s[0]) {
        0
    } else {
        1 + word_prefix_len(s.drop_first())
    }
}

pub proof fn lemma_word_prefix_len(s: Seq<char>)
    ensures
        word_prefix_len(s) <= s.len(),
        forall|k: int| 0 <= k < word_prefix_len(s) ==> !is_space_char(s[k]),
        word_prefix_len(s) < s.len() ==> is_space_char(s[word_prefix_len(s) as int]),
    decreases s.len(),
{
    if s.len() == 0 || is_space_char(s[0]) {
    } else {
        lemma_word_prefix_len(s.drop_first());
        assert forall|k: int| 0 <= k < word_prefix_len(s) implies !is_space_char(s[k]) by {
            if k > 0 {
                assert(s.drop_first()[k - 1] == s[k]);
            }
        }
        if word_prefix_len(s) < s.len() {
            assert(s.drop_first()[word_prefix_len(s) as int - 1] == s[word_prefix_len(s) as int]);
        }
    }
}

pub proof fn lemma_word_prefix_len_is(s: Seq<char>, p: int)
    requires
        0 <= p <= s.len(),
        forall|k: int| 0 <= k < p ==> !is_space_char(s[k]),
        p < s.len() ==> is_space_char(s[p]),
    ensures
        word_prefix_len(s) == p,
    decreases s.len(),
{
    if p == 0 {
    } else {
        assert(!is_space_char(s[0]));
        lemma_word_prefix_len_is(s.drop_first(), p - 1);
    }
}

/// The whitespace-separated words of `s`, in order.
pub open spec fn words_spec(s: Seq<char>) -> Seq<Seq<char>>
    decreases s.len() via words_spec_decreases
{
    if s.len() == 0 {
        Seq::empty()
    } else if is_space_char(s[0]) {
        words_spec(s.drop_first())
    } else {
        seq![s.take(word_prefix_len(s) as int)] + words_spec(s.skip(word_prefix_len(s) as int))
    }
}

#[via_fn]
proof fn words_spec_decreases(s: Seq<char>) {
    lemma_word_prefix_len(s);
}

/// A word list is unchanged by dropping leading whitespace one character at
/// a time; the words themselves are non-empty and hold no whitespace.
pub proof fn lemma_words_wellformed(s: Seq<char>)
    ensures
        forall|k: int|
            0 <= k < words_spec(s).len() ==> (#[trigger] words_spec(s)[k]).len() > 0,
        forall|k: int, j: int|
            0 <= k < words_spec(s).len() && 0 <= j < words_spec(s)[k].len()
                ==> !is_space_char(#[trigger] words_spec(s)[k][j]),
    decreases s.len(),
{
    if s.len() == 0 {
    } else if is_space_char(s[0]) {
        lemma_words_wellformed(s.drop_first());
        assert(words_spec(s) == words_spec(s.drop_first()));
    } else {
        let p = word_prefix_len(s) as int;
        lemma_word_prefix_len(s);
        lemma_words_wellformed(s.skip(p));
        let w = words_spec(s);
        let first = s.take(p);
        let rest = words_spec(s.skip(p));
        assert(w =~~= seq![first] + rest);
        assert forall|k: int| 0 <= k < w.len() implies (#[trigger] w[k]).len() > 0 by {
            if k == 0 {
                assert(w[0] == first);
            } else {
                assert(w[k] == rest[k - 1]);
            }
        }
        assert forall|k: int, j: int|
            0 <= k < w.len() && 0 <= j < w[k].len() implies !is_space_char(
            #[trigger] w[k][j],
        ) by {
            if k == 0 {
                assert(w[0] == first);
                assert(first[j] == s[j]);
            } else {
                assert(w[k] == rest[k - 1]);
            }
        }
    }
}

/// A non-empty sequence without whitespace is a single word.
pub proof fn lemma_single_word(s: Seq<char>)
    requires
        s.len() > 0,
        forall|k: int| 0 <= k < s.len() ==> !is_space_char(s[k]),
    ensures
        words_spec(s) =~~= seq![s],
{
    lemma_word_prefix_len_is(s, s.len() as int);
    assert(s.take(s.len() as int) =~= s);
    assert(s.skip(s.len() as int) =~= Seq::<char>::empty());
    assert(words_spec(Seq::<char>::empty()) =~~= Seq::<Seq<char>>::empty());
    assert(words_spec(s) =~~= seq![s.take(s.len() as int)] + words_spec(s.skip(s.len() as int)));
}

/// Words distribute over concatenation at a whitespace boundary: if `a` is
/// empty or ends in whitespace, the words of `a + b` are those of `a`
/// followed by those of `b`.
pub proof fn lemma_words_concat(a: Seq<char>, b: Seq<char>)
    requires
        a.len() == 0 || is_space_char(a.last()),
    ensures
        words_spec(a + b) =~~= words_spec(a) + words_spec(b),
    decreases a.len(),
{
    if a.len() == 0 {
        assert(a + b =~= b);
    } else if is_space_char(a[0]) {
        assert((a + b).drop_first() =~= a.drop_first() + b);
        if a.len() == 1 {
            assert(a.drop_first() + b =~= b);
            assert(a.drop_first() =~= Seq::<char>::empty());
            assert(words_spec(a) == words_spec(a.drop_first()));
            assert(words_spec(Seq::<char>::empty()) =~~= Seq::<Seq<char>>::empty());
            assert(words_spec(a) =~~= Seq::<Seq<char>>::empty());
            assert(words_spec(a) + words_spec(b) =~~= words_spec(b));
        } else {
            assert(a.drop_first().last() == a.last());
            lemma_words_concat(a.drop_first(), b);
        }
    } else {
        let p = word_prefix_len(a) as int;
        lemma_word_prefix_len(a);
        assert(p < a.len());
        lemma_word_prefix_len_is(
            a + b,
            p,
        );
        assert((a + b).take(p) =~= a.take(p));
        assert((a + b).skip(p) =~= a.skip(p) + b);
        assert(a.skip(p).last() == a.last());
        lemma_words_concat(a.skip(p), b);
    }
}

/// Splits `s` into its whitespace-separated words.
pub fn word_list(s: &str) -> (r: Vec<String>)
    ensures
        r.deep_view() == words_spec(s@),
{
    let n = s.unicode_len();
    let mut out: Vec<String> = Vec::new();
    proof {
        assert(s@.skip(0) =~= s@);
        assert(out.deep_view() + words_spec(s@) =~~= words_spec(s@));
    }
    let mut i: usize = 0;
    while i < n
        invariant
            0 <= i <= n,
            n == s@.len(),
            words_spec(s@) =~~= out.deep_view() + words_spec(s@.skip(i as int)),
        decreases n - i,
    {
        if is_space(s.get_char(i)) {
            proof {
                assert(s@.skip(i as int).drop_first() =~= s@.skip(i + 1));
            }
            i = i + 1;
        } else {
            let mut j: usize = i + 1;
            while j < n && !is_space(s.get_char(j))
                invariant
                    i < j <= n,
                    n == s@.len(),
                    forall|k: int| i <= k < j ==> !is_space_char(s@[k]),
                decreases n - j,
            {
                j = j + 1;
            }
            let word = s.substring_char(i, j).to_owned();
            proof {
                let rest = s@.skip(i as int);
                assert forall|k: int| 0 <= k < j - i implies !is_space_char(rest[k]) by {
                    assert(rest[k] == s@[k + i]);
                }
                if j < n {
                    assert(rest[j - i] == s@[j as int]);
                }
                lemma_word_prefix_len_is(rest, j - i);
                assert(rest.take(j - i) =~= s@.subrange(i as int, j as int));
                assert(rest.skip(j - i) =~= s@.skip(j as int));
                assert(words_spec(rest) =~~= seq![s@.subrange(i as int, j as int)] + words_spec(
                    s@.skip(j as int),
                ));
            }
            let ghost old_out = out.deep_view();
            out.push(word);
            proof {
                assert(out.deep_view() =~~= old_out + seq![s@.subrange(i as int, j as int)]);
            }
            i = j;
        }
    }
    proof {
        assert(s@.skip(n as int) =~= Seq::<char>::empty());
        assert(out.deep_view() =~~= words_spec(s@));
    }
    out
}

/// The sequence `parts` joined with separator `sep` between elements.
pub open spec fn join_with(parts: Seq<Seq<char>>, sep: Seq<char>) -> Seq<char>
    decreases parts.len(),
{
    if parts.len() == 0 {
        Seq::empty()
    } else if parts.len() == 1 {
        parts[0]
    } else {
        parts[0] + sep + join_with(parts.drop_first(), sep)
    }
}

pub proof fn lemma_join_push(parts: Seq<Seq<char>>, sep: Seq<char>, x: Seq<char>)
    ensures
        parts.len() == 0 ==> join_with(parts.push(x), sep) =~= x,
        parts.len() > 0 ==> join_with(parts.push(x), sep) =~= join_with(parts, sep) + sep + x,
    decreases parts.len(),
{
    if parts.len() == 0 {
        assert(parts.push(x)[0] == x);
    } else if parts.len() == 1 {
        assert(parts.push(x).drop_first() =~~= seq![x]);
        assert(parts.push(x)[0] == parts[0]);
        assert(join_with(seq![x], sep) == x);
        assert(join_with(parts.push(x), sep) == parts.push(x)[0] + sep + join_with(
            parts.push(x).drop_first(),
            sep,
        ));
        assert(join_with(parts.push(x), sep) =~= parts[0] + sep + x);
    } else {
        assert(parts.push(x).drop_first() =~~= parts.drop_first().push(x));
        lemma_join_push(parts.drop_first(), sep, x);
        assert(join_with(parts.push(x), sep) =~= parts[0] + sep + join_with(
            parts.drop_first().push(x),
            sep,
        ));
    }
}

/// Whitespace alone holds no words.
pub proof fn lemma_words_all_spaces(sp: Seq<char>)
    requires
        forall|k: int| 0 <= k < sp.len() ==> is_space_char(sp[k]),
    ensures
        words_spec(sp) =~~= Seq::<Seq<char>>::empty(),
    decreases sp.len(),
{
    if sp.len() > 0 {
        lemma_words_all_spaces(sp.drop_first());
    }
}

/// Dropping leading whitespace leaves the words unchanged.
pub proof fn lemma_words_skip_leading(s: Seq<char>)
    ensures
        words_spec(s.skip(leading_spaces(s) as int)) =~~= words_spec(s),
    decreases s.len(),
{
    if s.len() == 0 || !is_space_char(s[0]) {
        assert(s.skip(0) =~= s);
    } else {
        lemma_leading_spaces(s);
        lemma_leading_spaces(s.drop_first());
        lemma_words_skip_leading(s.drop_first());
        assert(leading_spaces(s) == 1 + leading_spaces(s.drop_first()));
        assert(s.skip(leading_spaces(s) as int) =~= s.drop_first().skip(
            leading_spaces(s.drop_first()) as int,
        ));
    }
}

/// Appending whitespace leaves the words unchanged.
pub proof fn lemma_words_append_spaces(x: Seq<char>, sp: Seq<char>)
    requires
        forall|k: int| 0 <= k < sp.len() ==> is_space_char(sp[k]),
    ensures
        words_spec(x + sp) =~~= words_spec(x),
    decreases x.len(),
{
    if sp.len() == 0 {
        assert(x + sp =~= x);
    } else if x.len() == 0 {
        assert(x + sp =~= sp);
        lemma_words_all_spaces(sp);
    } else if is_space_char(x[0]) {
        assert((x + sp).drop_first() =~= x.drop_first() + sp);
        lemma_words_append_spaces(x.drop_first(), sp);
    } else {
        let p = word_prefix_len(x) as int;
        lemma_word_prefix_len(x);
        assert forall|k: int| 0 <= k < p implies !is_space_char((x + sp)[k]) by {
            assert((x + sp)[k] == x[k]);
        }
        if p < x.len() {
            assert((x + sp)[p] == x[p]);
        } else {
            assert((x + sp)[p] == sp[0]);
        }
        lemma_word_prefix_len_is(x + sp, p);
        assert((x + sp).take(p) =~= x.take(p));
        assert((x + sp).skip(p) =~= x.skip(p) + sp);
        lemma_words_append_spaces(x.skip(p), sp);
    }
}

/// Trimming text that already begins and ends with non-whitespace leaves
/// it unchanged.
pub proof fn lemma_trim_noop(s: Seq<char>)
    requires
        s.len() > 0,
        !is_space_char(s[0]),
        !is_space_char(s.last()),
    ensures
        trim_spec(s) =~= s,
{
    assert(leading_spaces(s) == 0);
    assert(s.skip(0) =~= s);
    assert(trailing_spaces(s) == 0);
}

/// Trimming is idempotent.
pub proof fn lemma_trim_idempotent(s: Seq<char>)
    ensures
        trim_spec(trim_spec(s)) =~= trim_spec(s),
{
    let t = trim_spec(s);
    if t.len() == 0 {
        assert(leading_spaces(t) == 0);
        assert(t.skip(0) =~= t);
        assert(trailing_spaces(t) == 0);
    } else {
        lemma_trim_bounds(s);
        lemma_trim_noop(t);
    }
}

/// Trimming leaves the words unchanged.
pub proof fn lemma_trim_words(s: Seq<char>)
    ensures
        words_spec(trim_spec(s)) =~~= words_spec(s),
{
    let t = s.skip(leading_spaces(s) as int);
    lemma_leading_spaces(s);
    lemma_words_skip_leading(s);
    let tr = trailing_spaces(t) as int;
    lemma_trailing_spaces(t);
    let kept = t.take(t.len() - tr);
    let sp = t.skip(t.len() - tr);
    assert(t =~= kept + sp);
    assert forall|k: int| 0 <= k < sp.len() implies is_space_char(sp[k]) by {
        assert(sp[k] == t[k + t.len() - tr]);
    }
    lemma_words_append_spaces(kept, sp);
}

/// A non-empty word followed by a single space is one word.
pub proof fn lemma_word_then_space(w: Seq<char>)
    requires
        w.len() > 0,
        forall|k: int| 0 <= k < w.len() ==> !is_space_char(w[k]),
    ensures
        words_spec(w + " "@) =~~= seq![w],
{
    reveal_strlit(" ");
    let s = w + " "@;
    assert(s.len() == w.len() + 1);
    assert forall|k: int| 0 <= k < w.len() implies !is_space_char(s[k]) by {
        assert(s[k] == w[k]);
    }
    assert(s[w.len() as int] == ' ');
    lemma_word_prefix_len_is(s, w.len() as int);
    assert(s.take(w.len() as int) =~= w);
    assert(s.skip(w.len() as int) =~= " "@);
    assert(words_spec(s) =~~= seq![w] + words_spec(" "@));
    assert(" "@.drop_first() =~= Seq::<char>::empty());
    assert(words_spec(" "@) == words_spec(" "@.drop_first()));
    assert(words_spec(Seq::<char>::empty()) =~~= Seq::<Seq<char>>::empty());
}

/// Joining non-empty whitespace-free words with single spaces and
/// splitting again gives the same words back.
pub proof fn lemma_words_join(ws: Seq<Seq<char>>)
    requires
        forall|k: int| 0 <= k < ws.len() ==> (#[trigger] ws[k]).len() > 0,
        forall|k: int, j: int|
            0 <= k < ws.len() && 0 <= j < ws[k].len() ==> !is_space_char(#[trigger] ws[k][j]),
    ensures
        words_spec(join_with(ws, " "@)) =~~= ws,
    decreases ws.len(),
{
    reveal_strlit(" ");
    if ws.len() == 0 {
        assert(words_spec(Seq::<char>::empty()) =~~= Seq::<Seq<char>>::empty());
    } else if ws.len() == 1 {
        assert(ws[0].len() > 0);
        lemma_single_word(ws[0]);
        assert(ws =~~= seq![ws[0]]);
    } else {
        let rest = ws.drop_first();
        let a = ws[0] + " "@;
        assert(a.last() == ' ');
        assert(is_space_char(a.last()));
        assert(join_with(ws, " "@) =~= a + join_with(rest, " "@));
        lemma_words_concat(a, join_with(rest, " "@));
        lemma_word_then_space(ws[0]);
        assert forall|k: int| 0 <= k < rest.len() implies (#[trigger] rest[k]).len() > 0 by {
            assert(rest[k] == ws[k + 1]);
        }
        assert forall|k: int, j: int|
            0 <= k < rest.len() && 0 <= j < rest[k].len() implies !is_space_char(
            #[trigger] rest[k][j],
        ) by {
            assert(rest[k] == ws[k + 1]);
        }
        lemma_words_join(rest);
        assert(words_spec(join_with(ws, " "@)) =~~= seq![ws[0]] + rest);
        assert(seq![ws[0]] + rest =~~= ws);
    }
}

/// A join of parts whose first part is non-empty starts with that part's
/// first character.
pub proof fn lemma_join_first(parts: Seq<Seq<char>>, sep: Seq<char>)
    requires
        parts.len() >= 1,
        parts[0].len() >= 1,
    ensures
        join_with(parts, sep).len() >= 1,
        join_with(parts, sep)[0] == parts[0][0],
{
    if parts.len() == 1 {
    } else {
        assert(join_with(parts, sep) == parts[0] + sep + join_with(parts.drop_first(), sep));
        assert(join_with(parts, sep)[0] == parts[0][0]);
    }
}

/// Joins `parts` with `sep` between consecutive elements.
pub fn join_strs(parts: &Vec<String>, sep: &str) -> (r: String)
    ensures
        r@ == join_with(parts.deep_view(), sep@),
{
    let mut out = String::new();
    let mut k: usize = 0;
    while k < parts.len()
        invariant
            0 <= k <= parts.deep_view().len(),
            parts.deep_view().len() == parts.len(),
            out@ == join_with(parts.deep_view().take(k as int), sep@),
        decreases parts.len() - k,
    {
        proof {
            lemma_join_push(parts.deep_view().take(k as int), sep@, parts.deep_view()[k as int]);
            assert(parts.deep_view().take(k + 1) =~~= parts.deep_view().take(k as int).push(
                parts.deep_view()[k as int],
            ));
        }
        if k > 0 {
            out.append(sep);
        }
        out.append(parts[k].as_str());
        k = k + 1;
    }
    proof {
        assert(parts.deep_view().take(parts.deep_view().len() as int) =~~= parts.deep_view());
    }
    out
}

/// Length of the leading run of characters of `s` before a newline.
pub open spec fn line_prefix_len(s: Seq<char>) -> nat
    decreases s.len(),
{
    if s.len() == 0 || s[0] == '\n' {
        0
    } else {
        1 + line_prefix_len(s.drop_first())
    }
}

pub proof fn lemma_line_prefix_len(s: Seq<char>)
    ensures
        line_prefix_len(s) <= s.len(),
        forall|k: int| 0 <= k < line_prefix_len(s) ==> s[k] != '\n',
        line_prefix_len(s) < s.len() ==> s[line_prefix_len(s) as int] == '\n',
    decreases s.len(),
{
    if s.len() == 0 || s[0] == '\n' {
    } else {
        lemma_line_prefix_len(s.drop_first());
        assert forall|k: int| 0 <= k < line_prefix_len(s) implies s[k] != '\n' by {
            if k > 0 {
                assert(s.drop_first()[k - 1] == s[k]);
            }
        }
        if line_prefix_len(s) < s.len() {
            assert(s.drop_first()[line_prefix_len(s) as int - 1] == s[line_prefix_len(s) as int]);
        }
    }
}

pub proof fn lemma_line_prefix_len_is(s: Seq<char>, p: int)
    requires
        0 <= p <= s.len(),
        forall|k: int| 0 <= k < p ==> s[k] != '\n',
        p < s.len() ==> s[p] == '\n',
    ensures
        line_prefix_len(s) == p,
    decreases s.len(),
{
    if p == 0 {
    } else {
        lemma_line_prefix_len_is(s.drop_first(), p - 1);
    }
}

/// A line with a trailing carriage return has it removed.
pub open spec fn strip_cr(s: Seq<char>) -> Seq<char> {
    if s.len() > 0 && s.last() == '\r' {
        s.drop_last()
    } else {
        s
    }
}

/// The lines of `s`: split at newline characters, a carriage return
/// directly before a newline removed with it, and no empty final line for
/// text that ends in a newline. A final segment without a newline keeps a
/// trailing carriage return.
pub open spec fn lines_spec(s: Seq<char>) -> Seq<Seq<char>>
    decreases s.len() via lines_spec_decreases
{
    if s.len() == 0 {
        Seq::empty()
    } else {
        let p = line_prefix_len(s) as int;
        if p == s.len() {
            seq![s]
        } else {
            seq![strip_cr(s.take(p))] + lines_spec(s.skip(p + 1))
        }
    }
}

#[via_fn]
proof fn lines_spec_decreases(s: Seq<char>) {
    lemma_line_prefix_len(s);
}

/// Splits `s` into lines, as `lines_spec` describes.
pub fn split_lines(s: &str) -> (r: Vec<String>)
    ensures
        r.deep_view() == lines_spec(s@),
{
    let n = s.unicode_len();
    let mut out: Vec<String> = Vec::new();
    proof {
        assert(s@.skip(0) =~= s@);
        assert(out.deep_view() + lines_spec(s@) =~~= lines_spec(s@));
    }
    let mut i: usize = 0;
    while i < n
        invariant
            0 <= i <= n,
            n == s@.len(),
            lines_spec(s@) =~~= out.deep_view() + lines_spec(s@.skip(i as int)),
        decreases n - i,
    {
        let mut j: usize = i;
        while j < n && s.get_char(j) != '\n'
            invariant
                i <= j <= n,
                n == s@.len(),
                forall|k: int| i <= k < j ==> s@[k] != '\n',
            decreases n - j,
        {
            j = j + 1;
        }
        // drop one trailing '\r' only when the segment is closed by '\n'
        let end = if j < n && j > i && s.get_char(j - 1) == '\r' {
            j - 1
        } else {
            j
        };
        let line = s.substring_char(i, end).to_owned();
        let ghost rest = s@.skip(i as int);
        proof {
            assert forall|k: int| 0 <= k < j - i implies rest[k] != '\n' by {
                assert(rest[k] == s@[k + i]);
            }
            if j < n {
                assert(rest[j - i] == s@[j as int]);
            }
            lemma_line_prefix_len_is(rest, j - i);
            assert(rest.take(j - i) =~= s@.subrange(i as int, j as int));
            if j > i {
                assert(rest.take(j - i).last() == s@[j - 1]);
            }
            if j < n {
                assert(strip_cr(rest.take(j - i)) =~= s@.subrange(i as int, end as int));
            }
        }
        let ghost old_out = out.deep_view();
        out.push(line);
        proof {
            assert(out.deep_view() =~~= old_out + seq![s@.subrange(i as int, end as int)]);
        }
        if j < n {
            proof {
                assert(rest.skip(j - i + 1) =~= s@.skip(j + 1));
                assert(lines_spec(rest) =~~= seq![s@.subrange(i as int, end as int)] + lines_spec(
                    s@.skip(j + 1),
                ));
            }
            i = j + 1;
        } else {
            proof {
                assert(line_prefix_len(rest) == rest.len());
                assert(rest =~= s@.subrange(i as int, end as int));
                assert(lines_spec(rest) =~~= seq![s@.subrange(i as int, end as int)]);
                assert(lines_spec(s@.skip(n as int)) =~~= Seq::<Seq<char>>::empty());
            }
            i = n;
        }
    }
    proof {
        assert(lines_spec(s@.skip(n as int)) =~~= Seq::<Seq<char>>::empty());
        assert(out.deep_view() =~~= lines_spec(s@));
    }
    out
}

/// ASCII upper-casing of a single character; other characters are unchanged.
pub open spec fn upper_char(c: char) -> char {
    if 97 <= c as u32 && c as u32 <= 122 {
        ((c as u32 - 32) as u8) as char
    } else {
        c
    }
}

/// Upper-cases one ASCII character.
pub fn to_upper(c: char) -> (r: char)
    ensures
        r == upper_char(c),
{
    let v = c as u32;
    if 97 <= v && v <= 122 {
        ((v - 32) as u8) as char
    } else {
        c
    }
}

/// `s` begins with `pat` up to ASCII case.
pub open spec fn starts_ci_spec(s: Seq<char>, pat: Seq<char>) -> bool {
    pat.len() <= s.len() && forall|j: int| 0 <= j < pat.len() ==> upper_char(s[j]) == pat[j]
}

/// Case-insensitive (ASCII) prefix test; `pat` is given in upper case.
pub fn starts_with_ci(s: &str, pat: &str) -> (r: bool)
    ensures
        r == starts_ci_spec(s@, pat@),
{
    let n = s.unicode_len();
    let m = pat.unicode_len();
    if m > n {
        return false;
    }
    let mut j: usize = 0;
    while j < m && to_upper(s.get_char(j)) == pat.get_char(j)
        invariant
            0 <= j <= m <= n,
            n == s@.len(),
            m == pat@.len(),
            forall|k: int| 0 <= k < j ==> upper_char(s@[k]) == pat@[k],
        decreases m - j,
    {
        j = j + 1;
    }
    j == m
}

/// The decimal digit character for `d` in 0..10.
pub open spec fn digit_char(d: int) -> char {
    if d == 0 {
        '0'
    } else if d == 1 {
        '1'
    } else if d == 2 {
        '2'
    } else if d == 3 {
        '3'
    } else if d == 4 {
        '4'
    } else if d == 5 {
        '5'
    } else if d == 6 {
        '6'
    } else if d == 7 {
        '7'
    } else if d == 8 {
        '8'
    } else {
        '9'
    }
}

/// The decimal rendering of a non-negative integer.
pub open spec fn dec_spec(n: int) -> Seq<char>
    decreases n,
{
    if n < 10 {
        seq![digit_char(n)]
    } else {
        dec_spec(n / 10).push(digit_char(n % 10))
    }
}

/// Decimal digits are never whitespace, and the rendering is non-empty.
pub proof fn lemma_dec_no_space(n: int)
    ensures
        dec_spec(n).len() >= 1,
        forall|k: int| 0 <= k < dec_spec(n).len() ==> !is_space_char(dec_spec(n)[k]),
    decreases n,
{
    if n < 10 {
    } else {
        lemma_dec_no_space(n / 10);
    }
}

fn digit_str(d: u64) -> (r: &'static str)
    requires
        d < 10,
    ensures
        r@ =~= seq![digit_char(d as int)],
{
    proof {
        reveal_strlit("0");
        reveal_strlit("1");
        reveal_strlit("2");
        reveal_strlit("3");
        reveal_strlit("4");
        reveal_strlit("5");
        reveal_strlit("6");
        reveal_strlit("7");
        reveal_strlit("8");
        reveal_strlit("9");
    }
    match d {
        0 => "0",
        1 => "1",
        2 => "2",
        3 => "3",
        4 => "4",
        5 => "5",
        6 => "6",
        7 => "7",
        8 => "8",
        _ => "9",
    }
}

/// Renders `n` in decimal.
pub fn u64_to_dec(n: u64) -> (r: String)
    ensures
        r@ == dec_spec(n as int),
    decreases n,
{
    if n < 10 {
        digit_str(n).to_owned()
    } else {
        let mut s = u64_to_dec(n / 10);
        s.append(digit_str(n % 10));
        proof {
            assert(s@ =~= dec_spec(n as int / 10).push(digit_char(n as int % 10)));
        }
        s
    }
}

} // verus!
