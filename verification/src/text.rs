//! Characters, whitespace and the cutting of a line into pieces.
//!
//! Everything here is stated over the sequence of characters of a string.
//! Positions are indices into that sequence, never byte offsets.

use vstd::prelude::*;

verus! {

/// Whether `c` is one of the characters that separate words: those that
/// Unicode marks as `White_Space`.
pub open spec fn is_space(c: char) -> bool {
    let n = c as u32;
    ||| 0x09 <= n <= 0x0D
    ||| n == 0x20
    ||| n == 0x85
    ||| n == 0xA0
    ||| n == 0x1680
    ||| 0x2000 <= n <= 0x200A
    ||| n == 0x2028
    ||| n == 0x2029
    ||| n == 0x202F
    ||| n == 0x205F
    ||| n == 0x3000
}

/// The end of the run of whitespace that starts at `i`: the first position at
/// or after `i` that holds no whitespace, or the length of `s`.
pub open spec fn spaces_end(s: Seq<char>, i: int) -> int
    decreases s.len() - i,
{
    if 0 <= i < s.len() && is_space(s[i]) {
        spaces_end(s, i + 1)
    } else {
        i
    }
}

/// The start of the run of whitespace that ends just before `j`.
pub open spec fn spaces_start(s: Seq<char>, j: int) -> int
    decreases j,
{
    if 0 < j <= s.len() && is_space(s[j - 1]) {
        spaces_start(s, j - 1)
    } else {
        j
    }
}

/// The end of the word that starts at `i`: the first position at or after
/// `i` that holds whitespace, or the length of `s`.
pub open spec fn word_end(s: Seq<char>, i: int) -> int
    decreases s.len() - i,
{
    if 0 <= i < s.len() && !is_space(s[i]) {
        word_end(s, i + 1)
    } else {
        i
    }
}

/// `s` without its leading and trailing whitespace.
pub open spec fn trimmed(s: Seq<char>) -> Seq<char> {
    let a = spaces_end(s, 0);
    let b = spaces_start(s, s.len() as int);
    if a < b {
        s.subrange(a, b)
    } else {
        Seq::empty()
    }
}

/// The words of `s` that start at or after `i`, in order.
pub open spec fn words_from(s: Seq<char>, i: int) -> Seq<Seq<char>>
    decreases s.len() - i,
    via words_from_terminates
{
    let a = spaces_end(s, i);
    if 0 <= i && a < s.len() {
        let b = word_end(s, a);
        seq![s.subrange(a, b)] + words_from(s, b)
    } else {
        Seq::empty()
    }
}

#[via_fn]
proof fn words_from_terminates(s: Seq<char>, i: int) {
    let a = spaces_end(s, i);
    if 0 <= i && a < s.len() {
        lemma_spaces_end(s, i);
        lemma_word_end(s, a);
    }
}

/// The words of `s`: its maximal runs of characters that are not whitespace.
pub open spec fn words(s: Seq<char>) -> Seq<Seq<char>> {
    words_from(s, 0)
}

/// The separator between two stages of a pipeline: a pipe with one blank on
/// each side.
pub open spec fn separator() -> Seq<char> {
    seq![' ', '|', ' ']
}

/// Whether the separator stands in `s` at position `i`.
pub open spec fn pipe_at(s: Seq<char>, i: int) -> bool {
    &&& 0 <= i
    &&& i + 3 <= s.len()
    &&& s[i] == ' '
    &&& s[i + 1] == '|'
    &&& s[i + 2] == ' '
}

/// The first position at or after `i` where the separator stands, or the
/// length of `s` if there is none.
pub open spec fn next_pipe(s: Seq<char>, i: int) -> int
    decreases s.len() - i,
{
    if i + 3 > s.len() {
        s.len() as int
    } else if pipe_at(s, i) {
        i
    } else {
        next_pipe(s, i + 1)
    }
}

/// The pieces of `s` from position `i` on, cut at each separator, scanning
/// from the left: a separator that overlaps an earlier one does not count.
pub open spec fn segments_from(s: Seq<char>, i: int) -> Seq<Seq<char>>
    decreases s.len() - i,
    via segments_from_terminates
{
    let j = next_pipe(s, i);
    if j + 3 <= s.len() {
        seq![s.subrange(i, j)] + segments_from(s, j + 3)
    } else {
        seq![s.subrange(i, s.len() as int)]
    }
}

#[via_fn]
proof fn segments_from_terminates(s: Seq<char>, i: int) {
    lemma_next_pipe(s, i);
}

/// The segments of `s`: what stands between its separators.
pub open spec fn segments(s: Seq<char>) -> Seq<Seq<char>> {
    segments_from(s, 0)
}

/// The character sequences of a list of strings.
pub open spec fn texts(v: Seq<String>) -> Seq<Seq<char>> {
    v.map_values(|t: String| t@)
}

/// `spaces_end` stops inside the sequence, on the first character that is
/// no whitespace; everything it passed over is whitespace.
pub proof fn lemma_spaces_end(s: Seq<char>, i: int)
    requires
        0 <= i <= s.len(),
    ensures
        i <= spaces_end(s, i) <= s.len(),
        forall|k: int| i <= k < spaces_end(s, i) ==> is_space(#[trigger] s[k]),
        spaces_end(s, i) < s.len() ==> !is_space(s[spaces_end(s, i)]),
    decreases s.len() - i,
{
    if i < s.len() && is_space(s[i]) {
        lemma_spaces_end(s, i + 1);
    }
}

/// `spaces_start` stops inside the sequence, just after the last character
/// that is no whitespace; everything it passed over is whitespace.
pub proof fn lemma_spaces_start(s: Seq<char>, j: int)
    requires
        0 <= j <= s.len(),
    ensures
        0 <= spaces_start(s, j) <= j,
        forall|k: int| spaces_start(s, j) <= k < j ==> is_space(#[trigger] s[k]),
        spaces_start(s, j) > 0 ==> !is_space(s[spaces_start(s, j) - 1]),
    decreases j,
{
    if 0 < j && is_space(s[j - 1]) {
        lemma_spaces_start(s, j - 1);
    }
}

/// `word_end` stops inside the sequence, on the first whitespace; nothing it
/// passed over is whitespace, and a word that starts on a character that is
/// no whitespace is not empty.
pub proof fn lemma_word_end(s: Seq<char>, i: int)
    requires
        0 <= i <= s.len(),
    ensures
        i <= word_end(s, i) <= s.len(),
        forall|k: int| i <= k < word_end(s, i) ==> !is_space(#[trigger] s[k]),
        word_end(s, i) < s.len() ==> is_space(s[word_end(s, i)]),
        i < s.len() && !is_space(s[i]) ==> i < word_end(s, i),
    decreases s.len() - i,
{
    if i < s.len() && !is_space(s[i]) {
        lemma_word_end(s, i + 1);
    }
}

/// `next_pipe` finds the leftmost separator at or after `i`.
pub proof fn lemma_next_pipe(s: Seq<char>, i: int)
    ensures
        i <= s.len() ==> i <= next_pipe(s, i) <= s.len(),
        next_pipe(s, i) + 3 <= s.len() ==> pipe_at(s, next_pipe(s, i)),
        next_pipe(s, i) + 3 > s.len() ==> next_pipe(s, i) == s.len(),
        forall|k: int| i <= k < next_pipe(s, i) ==> !pipe_at(s, k),
    decreases s.len() - i,
{
    if i + 3 <= s.len() && !pipe_at(s, i) {
        lemma_next_pipe(s, i + 1);
    }
}

/// What `trimmed` keeps and what it drops: `s` is whitespace, then the
/// result, then whitespace again, and the result neither begins nor ends
/// with whitespace.
pub proof fn lemma_trimmed(s: Seq<char>)
    ensures
        ({
            let a = spaces_end(s, 0);
            let t = trimmed(s);
            &&& 0 <= a <= s.len()
            &&& a + t.len() <= s.len()
            &&& t == s.subrange(a, a + t.len())
            &&& forall|k: int| 0 <= k < a ==> is_space(#[trigger] s[k])
            &&& forall|k: int| a + t.len() <= k < s.len() ==> is_space(#[trigger] s[k])
            &&& t.len() > 0 ==> !is_space(t[0]) && !is_space(t.last())
        }),
{
    lemma_spaces_end(s, 0);
    lemma_spaces_start(s, s.len() as int);
}

/// Every word from `i` on holds at least one character and no whitespace.
pub proof fn lemma_words_from(s: Seq<char>, i: int)
    requires
        0 <= i <= s.len(),
    ensures
        forall|k: int|
            0 <= k < words_from(s, i).len() ==> {
                let w = #[trigger] words_from(s, i)[k];
                w.len() > 0 && forall|j: int| 0 <= j < w.len() ==> !is_space(#[trigger] w[j])
            },
    decreases s.len() - i,
{
    lemma_spaces_end(s, i);
    let a = spaces_end(s, i);
    if a < s.len() {
        lemma_word_end(s, a);
        let b = word_end(s, a);
        lemma_words_from(s, b);
        assert forall|k: int| 0 <= k < words_from(s, i).len() implies {
            let w = #[trigger] words_from(s, i)[k];
            w.len() > 0 && forall|j: int| 0 <= j < w.len() ==> !is_space(#[trigger] w[j])
        } by {
            if k > 0 {
                assert(words_from(s, i)[k] == words_from(s, b)[k - 1]);
            }
        }
    }
}

/// Every word holds at least one character and no whitespace.
pub proof fn lemma_words(s: Seq<char>)
    ensures
        forall|k: int|
            0 <= k < words(s).len() ==> {
                let w = #[trigger] words(s)[k];
                w.len() > 0 && forall|j: int| 0 <= j < w.len() ==> !is_space(#[trigger] w[j])
            },
{
    lemma_words_from(s, 0);
}

/// The characters of `s` from `i` on that are no whitespace, in order.
pub open spec fn unspaced(s: Seq<char>, i: int) -> Seq<char>
    decreases s.len() - i,
{
    if i < 0 || i >= s.len() {
        Seq::empty()
    } else if is_space(s[i]) {
        unspaced(s, i + 1)
    } else {
        seq![s[i]] + unspaced(s, i + 1)
    }
}

/// The pieces of `pieces` from place `k` on, one after the other.
pub open spec fn glued(pieces: Seq<Seq<char>>, k: int) -> Seq<char>
    decreases pieces.len() - k,
{
    if k < 0 || k >= pieces.len() {
        Seq::empty()
    } else {
        pieces[k] + glued(pieces, k + 1)
    }
}

/// Cutting into words loses nothing but whitespace, and keeps the order:
/// the words from `i` on, one after the other, are the characters of `s`
/// from `i` on that are no whitespace.
pub proof fn lemma_words_lose_only_whitespace(s: Seq<char>, i: int)
    requires
        0 <= i <= s.len(),
    ensures
        glued(words_from(s, i), 0) == unspaced(s, i),
    decreases s.len() - i,
{
    lemma_spaces_end(s, i);
    let a = spaces_end(s, i);
    lemma_unspaced_after_spaces(s, i, a);
    if a < s.len() {
        lemma_word_end(s, a);
        let b = word_end(s, a);
        lemma_unspaced_after_word(s, a, b);
        lemma_words_lose_only_whitespace(s, b);
        lemma_glued_shift(s.subrange(a, b), words_from(s, b), 0);
    }
}

/// Whitespace between `i` and `a` adds nothing.
proof fn lemma_unspaced_after_spaces(s: Seq<char>, i: int, a: int)
    requires
        0 <= i <= a <= s.len(),
        forall|k: int| i <= k < a ==> is_space(#[trigger] s[k]),
    ensures
        unspaced(s, i) == unspaced(s, a),
    decreases a - i,
{
    if i < a {
        lemma_unspaced_after_spaces(s, i + 1, a);
    }
}

/// A word between `a` and `b` is kept whole.
proof fn lemma_unspaced_after_word(s: Seq<char>, a: int, b: int)
    requires
        0 <= a <= b <= s.len(),
        forall|k: int| a <= k < b ==> !is_space(#[trigger] s[k]),
    ensures
        unspaced(s, a) == s.subrange(a, b) + unspaced(s, b),
    decreases b - a,
{
    if a < b {
        lemma_unspaced_after_word(s, a + 1, b);
        assert(s.subrange(a, b) =~= seq![s[a]] + s.subrange(a + 1, b));
    } else {
        assert(s.subrange(a, b) + unspaced(s, b) =~= unspaced(s, b));
    }
}

/// Gluing with one more piece in front.
proof fn lemma_glued_shift(first: Seq<char>, rest: Seq<Seq<char>>, k: int)
    requires
        0 <= k <= rest.len(),
    ensures
        glued(seq![first] + rest, k + 1) == glued(rest, k),
        glued(seq![first] + rest, 0) == first + glued(seq![first] + rest, 1),
    decreases rest.len() - k,
{
    if k < rest.len() {
        lemma_glued_shift(first, rest, k + 1);
    }
}

/// A sequence of nothing but whitespace has no words.
pub proof fn lemma_blank_has_no_words(s: Seq<char>, i: int)
    requires
        0 <= i <= s.len(),
        forall|k: int| i <= k < s.len() ==> is_space(#[trigger] s[k]),
    ensures
        spaces_end(s, i) == s.len(),
        words_from(s, i) == Seq::<Seq<char>>::empty(),
    decreases s.len() - i,
{
    if i < s.len() {
        lemma_blank_has_no_words(s, i + 1);
    }
}

/// There is at least one segment, also in the empty sequence.
pub proof fn lemma_segments_from(s: Seq<char>, i: int)
    ensures
        segments_from(s, i).len() >= 1,
{
}

/// The pieces of `pieces` from place `k` on, with a separator between each
/// two of them.
pub open spec fn joined(pieces: Seq<Seq<char>>, k: int) -> Seq<char>
    decreases pieces.len() - k,
{
    if k < 0 || k >= pieces.len() {
        Seq::empty()
    } else if k + 1 == pieces.len() {
        pieces[k]
    } else {
        pieces[k] + separator() + joined(pieces, k + 1)
    }
}

/// Cutting loses nothing but the separators: the segments from `i` on,
/// joined again, are `s` from `i` on.
pub proof fn lemma_segments_join(s: Seq<char>, i: int)
    requires
        0 <= i <= s.len(),
    ensures
        joined(segments_from(s, i), 0) == s.subrange(i, s.len() as int),
    decreases s.len() - i,
{
    lemma_next_pipe(s, i);
    let j = next_pipe(s, i);
    if j + 3 <= s.len() {
        lemma_segments_join(s, j + 3);
        lemma_segments_from(s, j + 3);
        lemma_joined_front(s.subrange(i, j), segments_from(s, j + 3));
        assert(s.subrange(i, s.len() as int) =~= s.subrange(i, j) + s.subrange(j, j + 3)
            + s.subrange(j + 3, s.len() as int));
    }
}

/// Joining with one more piece in front.
proof fn lemma_joined_front(first: Seq<char>, rest: Seq<Seq<char>>)
    requires
        rest.len() >= 1,
    ensures
        joined(seq![first] + rest, 0) == first + separator() + joined(rest, 0),
{
    lemma_joined_shift(first, rest, 0);
}

proof fn lemma_joined_shift(first: Seq<char>, rest: Seq<Seq<char>>, k: int)
    requires
        0 <= k <= rest.len(),
    ensures
        joined(seq![first] + rest, k + 1) == joined(rest, k),
    decreases rest.len() - k,
{
    if k < rest.len() {
        lemma_joined_shift(first, rest, k + 1);
    }
}

/// No segment holds a separator.
pub proof fn lemma_segments_hold_no_separator(s: Seq<char>, i: int)
    requires
        0 <= i <= s.len(),
    ensures
        forall|k: int, m: int|
            0 <= k < segments_from(s, i).len() ==> !#[trigger] pipe_at(segments_from(s, i)[k], m),
    decreases s.len() - i,
{
    lemma_next_pipe(s, i);
    let j = next_pipe(s, i);
    let all = segments_from(s, i);
    let first = if j + 3 <= s.len() {
        s.subrange(i, j)
    } else {
        s.subrange(i, s.len() as int)
    };
    assert forall|m: int| !pipe_at(first, m) by {
        if pipe_at(first, m) {
            assert(first[m] == s[i + m] && first[m + 1] == s[i + m + 1] && first[m + 2] == s[i
                + m + 2]);
            assert(pipe_at(s, i + m));
        }
    }
    if j + 3 <= s.len() {
        lemma_segments_hold_no_separator(s, j + 3);
        assert forall|k: int, m: int| 0 <= k < all.len() implies !#[trigger] pipe_at(all[k], m) by {
            if k > 0 {
                assert(all[k] == segments_from(s, j + 3)[k - 1]);
            }
        }
    }
}

/// Tells whether `c` separates words.
pub fn is_whitespace(c: char) -> (b: bool)
    ensures
        b == is_space(c),
{
    let n: u32 = c as u32;
    (0x09 <= n && n <= 0x0D) || n == 0x20 || n == 0x85 || n == 0xA0 || n == 0x1680 || (0x2000 <= n
        && n <= 0x200A) || n == 0x2028 || n == 0x2029 || n == 0x202F || n == 0x205F || n == 0x3000
}

/// The characters of `s`, one by one.
pub fn chars_of(s: &str) -> (v: Vec<char>)
    ensures
        v@ == s@,
{
    let mut v: Vec<char> = Vec::new();
    for c in it: s.chars()
        invariant
            it.seq() == s@,
            v@ == it.seq().take(it.index()),
    {
        v.push(c);
    }
    v
}

/// The end of the run of whitespace that starts at `i`.
fn skip_spaces(cs: &Vec<char>, i: usize) -> (a: usize)
    requires
        i <= cs.len(),
    ensures
        a == spaces_end(cs@, i as int),
        i <= a <= cs.len(),
{
    let n = cs.len();
    let mut a: usize = i;
    while a < n && is_whitespace(cs[a])
        invariant
            i <= a <= n,
            n == cs.len(),
            spaces_end(cs@, i as int) == spaces_end(cs@, a as int),
        decreases n - a,
    {
        a += 1;
    }
    a
}

/// The start of the run of whitespace that ends just before `j`, looking
/// back no further than `floor`, where a word starts unless `floor` is the end.
fn skip_spaces_back(cs: &Vec<char>, floor: usize, j: usize) -> (b: usize)
    requires
        floor <= j <= cs.len(),
        floor < cs.len() ==> !is_space(cs[floor as int]),
    ensures
        floor <= b <= j,
        b > floor ==> b == spaces_start(cs@, j as int),
        b == floor ==> spaces_start(cs@, j as int) <= floor,
{
    let mut b: usize = j;
    while b > floor && is_whitespace(cs[b - 1])
        invariant
            floor <= b <= j <= cs.len(),
            spaces_start(cs@, j as int) == spaces_start(cs@, b as int),
        decreases b,
    {
        b -= 1;
    }
    proof {
        lemma_spaces_start(cs@, b as int);
    }
    b
}

/// The end of the word that starts at `i`.
fn skip_word(cs: &Vec<char>, i: usize) -> (b: usize)
    requires
        i <= cs.len(),
    ensures
        b == word_end(cs@, i as int),
        i <= b <= cs.len(),
{
    let n = cs.len();
    let mut b: usize = i;
    while b < n && !is_whitespace(cs[b])
        invariant
            i <= b <= n,
            n == cs.len(),
            word_end(cs@, i as int) == word_end(cs@, b as int),
        decreases n - b,
    {
        b += 1;
    }
    b
}

/// Cuts leading and trailing whitespace off `s`.
pub fn trim<'a>(s: &'a str) -> (t: &'a str)
    ensures
        t@ == trimmed(s@),
{
    let cs = chars_of(s);
    let a = skip_spaces(&cs, 0);
    proof {
        lemma_spaces_end(cs@, 0);
    }
    let b = skip_spaces_back(&cs, a, cs.len());
    s.substring_char(a, b)
}

/// Cuts `s` into its words.
pub fn split_whitespace(s: &str) -> (w: Vec<String>)
    ensures
        texts(w@) == words(s@),
{
    let cs = chars_of(s);
    let n = cs.len();
    let mut out: Vec<String> = Vec::new();
    let mut i: usize = 0;
    while i < n
        invariant
            i <= n,
            n == cs.len(),
            cs@ == s@,
            words(s@) == texts(out@) + words_from(s@, i as int),
        decreases n - i,
    {
        let a = skip_spaces(&cs, i);
        if a < n {
            let b = skip_word(&cs, a);
            proof {
                lemma_spaces_end(cs@, i as int);
                lemma_word_end(cs@, a as int);
            }
            out.push(s.substring_char(a, b).to_owned());
            i = b;
        } else {
            i = n;
        }
    }
    out
}

/// Cuts `s` at each separator.
pub fn split_pipes(s: &str) -> (parts: Vec<String>)
    ensures
        texts(parts@) == segments(s@),
        parts.len() >= 1,
{
    let cs = chars_of(s);
    let n = cs.len();
    let mut out: Vec<String> = Vec::new();
    let mut i: usize = 0;
    let mut j: usize = 0;
    while n - j >= 3
        invariant
            i <= j <= n,
            n == cs.len(),
            cs@ == s@,
            segments(s@) == texts(out@) + segments_from(s@, i as int),
            next_pipe(s@, i as int) == next_pipe(s@, j as int),
        decreases n - j,
    {
        if cs[j] == ' ' && cs[j + 1] == '|' && cs[j + 2] == ' ' {
            out.push(s.substring_char(i, j).to_owned());
            i = j + 3;
            j = i;
        } else {
            j += 1;
        }
    }
    out.push(s.substring_char(i, n).to_owned());
    out
}

} // verus!
