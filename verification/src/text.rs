//! Whitespace handling on text: trimming and splitting into words, with whitespace as the
//! Unicode `White_Space` property defines it.
use vstd::prelude::*;
use vstd::string::*;

verus! {

/// The characters with the Unicode `White_Space` property.
pub open spec fn is_white_space(c: char) -> bool {
    let u = c as u32;
    ||| 0x09 <= u <= 0x0D
    ||| u == 0x20
    ||| u == 0x85
    ||| u == 0xA0
    ||| u == 0x1680
    ||| 0x2000 <= u <= 0x200A
    ||| u == 0x2028
    ||| u == 0x2029
    ||| u == 0x202F
    ||| u == 0x205F
    ||| u == 0x3000
}

/// Whether a character is whitespace (`char::is_whitespace`).
pub fn white_space(c: char) -> (r: bool)
    ensures
        r == is_white_space(c),
{
    let u = c as u32;
    (0x09 <= u && u <= 0x0D) || u == 0x20 || u == 0x85 || u == 0xA0 || u == 0x1680 || (0x2000 <= u
        && u <= 0x200A) || u == 0x2028 || u == 0x2029 || u == 0x202F || u == 0x205F || u == 0x3000
}

/// The first index at or after `i` that is not whitespace (or the length).
pub open spec fn skip_space(s: Seq<char>, i: int) -> int
    decreases s.len() - i,
{
    if 0 <= i < s.len() && is_white_space(s[i]) {
        skip_space(s, i + 1)
    } else {
        i
    }
}

/// The first index at or after `i` that is whitespace (or the length).
pub open spec fn skip_word(s: Seq<char>, i: int) -> int
    decreases s.len() - i,
{
    if 0 <= i < s.len() && !is_white_space(s[i]) {
        skip_word(s, i + 1)
    } else {
        i
    }
}

/// The index just past the last character before `j` that is not whitespace (or zero).
pub open spec fn back_space(s: Seq<char>, j: int) -> int
    decreases j,
{
    if 0 < j <= s.len() && is_white_space(s[j - 1]) {
        back_space(s, j - 1)
    } else {
        j
    }
}

/// The text without its leading and trailing whitespace (`str::trim`).
pub open spec fn trimmed(s: Seq<char>) -> Seq<char> {
    let i = skip_space(s, 0);
    let j = back_space(s, s.len() as int);
    if i < j {
        s.subrange(i, j)
    } else {
        Seq::empty()
    }
}

pub proof fn lemma_skip_word_ge(s: Seq<char>, i: int)
    ensures
        skip_word(s, i) >= i,
        0 <= i <= s.len() ==> skip_word(s, i) <= s.len(),
    decreases s.len() - i,
{
    if 0 <= i < s.len() && !is_white_space(s[i]) {
        lemma_skip_word_ge(s, i + 1);
    }
}

/// The words of the text from index `i` on: the maximal runs of characters that are not
/// whitespace, in order (`str::split_whitespace`).
pub open spec fn words_from(s: Seq<char>, i: int) -> Seq<Seq<char>>
    decreases s.len() - i,
{
    if i < 0 || i >= s.len() {
        Seq::empty()
    } else if is_white_space(s[i]) {
        words_from(s, i + 1)
    } else {
        let b = skip_word(s, i + 1);
        proof {
            lemma_skip_word_ge(s, i + 1);
        }
        seq![s.subrange(i, b)] + words_from(s, b)
    }
}

/// The words of the text (`str::split_whitespace`).
pub open spec fn words(s: Seq<char>) -> Seq<Seq<char>> {
    words_from(s, 0)
}

/// The texts of a list of strings.
pub open spec fn texts(v: Seq<String>) -> Seq<Seq<char>> {
    v.map_values(|x: String| x@)
}

/// The text without its leading and trailing whitespace.
pub fn trim(s: &str) -> (r: String)
    ensures
        r@ == trimmed(s@),
{
    let n = s.unicode_len();
    let mut i: usize = 0;
    while i < n && white_space(s.get_char(i))
        invariant
            n == s@.len(),
            i <= n,
            skip_space(s@, 0) == skip_space(s@, i as int),
        decreases n - i,
    {
        i = i + 1;
    }
    let mut j: usize = n;
    while j > 0 && white_space(s.get_char(j - 1))
        invariant
            n == s@.len(),
            j <= n,
            back_space(s@, n as int) == back_space(s@, j as int),
        decreases j,
    {
        j = j - 1;
    }
    if i < j {
        String::from_str(s.substring_char(i, j))
    } else {
        String::new()
    }
}

/// The words of the text, in order.
pub fn split_words(s: &str) -> (r: Vec<String>)
    ensures
        texts(r@) == words(s@),
{
    let n = s.unicode_len();
    let mut out: Vec<String> = Vec::new();
    let mut i: usize = 0;
    while i < n
        invariant
            n == s@.len(),
            i <= n,
            texts(out@) + words_from(s@, i as int) == words(s@),
        decreases n - i,
    {
        if white_space(s.get_char(i)) {
            i = i + 1;
        } else {
            let mut j: usize = i + 1;
            while j < n && !white_space(s.get_char(j))
                invariant
                    n == s@.len(),
                    i < j <= n,
                    skip_word(s@, (i + 1) as int) == skip_word(s@, j as int),
                decreases n - j,
            {
                j = j + 1;
            }
            let word = String::from_str(s.substring_char(i, j));
            let ghost before = out@;
            out.push(word);
            proof {
                assert(texts(out@) =~= texts(before).push(s@.subrange(i as int, j as int)));
                assert(texts(out@) + words_from(s@, j as int) =~= texts(before) + words_from(s@, i as int));
            }
            i = j;
        }
    }
    out
}

/// Whitespace is exactly the Unicode `White_Space` set, character by character: tab, line
/// feed, line tabulation, form feed, carriage return, space, next line, no-break space, Ogham
/// space mark, the eleven spaces from en quad to hair space, line separator, paragraph
/// separator, narrow no-break space, medium mathematical space and ideographic space.
pub proof fn law_white_space_is_unicode_white_space(c: char)
    ensures
        is_white_space(c) <==> {
            ||| c == '\t' || c == '\n' || c == '\u{0B}' || c == '\u{0C}' || c == '\r'
            ||| c == ' ' || c == '\u{85}' || c == '\u{A0}' || c == '\u{1680}'
            ||| c == '\u{2000}' || c == '\u{2001}' || c == '\u{2002}' || c == '\u{2003}' || c == '\u{2004}'
            ||| c == '\u{2005}' || c == '\u{2006}' || c == '\u{2007}' || c == '\u{2008}' || c == '\u{2009}'
            ||| c == '\u{200A}'
            ||| c == '\u{2028}' || c == '\u{2029}' || c == '\u{202F}' || c == '\u{205F}' || c == '\u{3000}'
        },
{
}

proof fn lemma_skip_space_bounds(s: Seq<char>, i: int)
    requires
        0 <= i <= s.len(),
    ensures
        i <= skip_space(s, i) <= s.len(),
        forall|k: int| i <= k < skip_space(s, i) ==> is_white_space(#[trigger] s[k]),
        skip_space(s, i) < s.len() ==> !is_white_space(s[skip_space(s, i)]),
    decreases s.len() - i,
{
    if i < s.len() && is_white_space(s[i]) {
        lemma_skip_space_bounds(s, i + 1);
    }
}

proof fn lemma_back_space_bounds(s: Seq<char>, j: int)
    requires
        0 <= j <= s.len(),
    ensures
        0 <= back_space(s, j) <= j,
        forall|k: int| back_space(s, j) <= k < j ==> is_white_space(#[trigger] s[k]),
        back_space(s, j) > 0 ==> !is_white_space(s[back_space(s, j) - 1]),
    decreases j,
{
    if 0 < j && is_white_space(s[j - 1]) {
        lemma_back_space_bounds(s, j - 1);
    }
}

/// Trimming takes off exactly the whitespace at both ends: the trimmed text is a piece of the
/// text, everything before and after that piece is whitespace, and the piece neither starts
/// nor ends with whitespace.
pub proof fn law_trim_strips_only_outer_white_space(s: Seq<char>)
    ensures
        exists|i: int, j: int|
            0 <= i <= j <= s.len() && #[trigger] s.subrange(i, j) == trimmed(s) && (forall|k: int|
                0 <= k < i ==> is_white_space(#[trigger] s[k])) && (forall|k: int|
                j <= k < s.len() ==> is_white_space(#[trigger] s[k])),
        trimmed(s).len() > 0 ==> !is_white_space(trimmed(s)[0]) && !is_white_space(trimmed(s).last()),
{
    let i = skip_space(s, 0);
    let j = back_space(s, s.len() as int);
    lemma_skip_space_bounds(s, 0);
    lemma_back_space_bounds(s, s.len() as int);
    if i < j {
        assert(s.subrange(i, j) == trimmed(s));
    } else {
        let n = s.len() as int;
        assert(s.subrange(n, n) =~= trimmed(s));
        assert forall|k: int| 0 <= k < n implies is_white_space(#[trigger] s[k]) by {
            if k >= i {
                assert(j <= k);
            }
        }
        assert(s.subrange(n, n) == trimmed(s));
    }
}

/// Every word is a non-empty run of characters none of which is whitespace.
pub proof fn law_words_hold_no_white_space(s: Seq<char>, i: int)
    ensures
        forall|w: int|
            0 <= w < words_from(s, i).len() ==> #[trigger] words_from(s, i)[w].len() > 0 && forall|k: int|
                0 <= k < words_from(s, i)[w].len() ==> !is_white_space(#[trigger] words_from(s, i)[w][k]),
    decreases s.len() - i,
{
    if 0 <= i < s.len() {
        if is_white_space(s[i]) {
            law_words_hold_no_white_space(s, i + 1);
            assert(words_from(s, i) == words_from(s, i + 1));
        } else {
            let b = skip_word(s, i + 1);
            lemma_skip_word_ge(s, i + 1);
            lemma_skip_word_no_space(s, i + 1);
            law_words_hold_no_white_space(s, b);
            let ws = words_from(s, i);
            assert forall|w: int| 0 <= w < ws.len() implies #[trigger] ws[w].len() > 0 && forall|k: int|
                0 <= k < ws[w].len() ==> !is_white_space(#[trigger] ws[w][k]) by {
                if w > 0 {
                    assert(ws == seq![s.subrange(i, b)] + words_from(s, b));
                    assert(ws[w] == words_from(s, b)[w - 1]);
                } else {
                    assert(ws[0] == s.subrange(i, b));
                    assert forall|k: int| 0 <= k < ws[0].len() implies !is_white_space(#[trigger] ws[0][k]) by {
                        assert(ws[0][k] == s[i + k]);
                    }
                }
            }
        }
    }
}

proof fn lemma_skip_word_no_space(s: Seq<char>, i: int)
    ensures
        forall|k: int| i <= k < skip_word(s, i) ==> !is_white_space(#[trigger] s[k]),
    decreases s.len() - i,
{
    if 0 <= i < s.len() && !is_white_space(s[i]) {
        lemma_skip_word_no_space(s, i + 1);
    }
}

/// `w` stands in `s` at index `at`.
pub open spec fn occurs_at(s: Seq<char>, w: Seq<char>, at: int) -> bool {
    0 <= at && at + w.len() <= s.len() && s.subrange(at, at + w.len()) == w
}

/// `w` stands in `s` with whitespace or an end of `s` on both sides.
pub open spec fn is_run_of(s: Seq<char>, w: Seq<char>) -> bool {
    exists|at: int|
        #[trigger] occurs_at(s, w, at) && (at == 0 || is_white_space(s[at - 1])) && (at + w.len() == s.len()
            || is_white_space(s[at + w.len()]))
}

proof fn lemma_skip_word_stops_at_space(s: Seq<char>, i: int)
    requires
        0 <= i <= s.len(),
    ensures
        skip_word(s, i) < s.len() ==> is_white_space(s[skip_word(s, i)]),
    decreases s.len() - i,
{
    if i < s.len() && !is_white_space(s[i]) {
        lemma_skip_word_stops_at_space(s, i + 1);
    }
}

proof fn lemma_words_from_are_runs(s: Seq<char>, i: int)
    requires
        0 <= i <= s.len(),
        i == 0 || i == s.len() || is_white_space(s[i - 1]) || is_white_space(s[i]),
    ensures
        forall|w: int| 0 <= w < words_from(s, i).len() ==> is_run_of(s, #[trigger] words_from(s, i)[w]),
        forall|k: int|
            i <= k < s.len() && !is_white_space(#[trigger] s[k]) ==> exists|w: int, at: int|
                0 <= w < words_from(s, i).len() && #[trigger] occurs_at(s, words_from(s, i)[w], at) && at <= k < at
                    + words_from(s, i)[w].len(),
    decreases s.len() - i,
{
    if i < s.len() {
        if is_white_space(s[i]) {
            lemma_words_from_are_runs(s, i + 1);
            let ws = words_from(s, i);
            let rest = words_from(s, i + 1);
            assert(ws == rest);
            assert forall|w: int| 0 <= w < ws.len() implies is_run_of(s, #[trigger] ws[w]) by {
                assert(ws[w] == rest[w]);
            }
        } else {
            let b = skip_word(s, i + 1);
            lemma_skip_word_ge(s, i + 1);
            lemma_skip_word_no_space(s, i + 1);
            lemma_skip_word_stops_at_space(s, i + 1);
            lemma_words_from_are_runs(s, b);
            let ws = words_from(s, i);
            let rest = words_from(s, b);
            assert(ws == seq![s.subrange(i, b)] + rest);
            assert(occurs_at(s, ws[0], i));
            assert forall|w: int| 0 <= w < ws.len() implies is_run_of(s, #[trigger] ws[w]) by {
                if w > 0 {
                    assert(ws[w] == rest[w - 1]);
                } else {
                    assert(occurs_at(s, ws[0], i));
                }
            }
            assert forall|k: int| i <= k < s.len() && !is_white_space(#[trigger] s[k]) implies exists|w: int, at: int|
                0 <= w < ws.len() && #[trigger] occurs_at(s, ws[w], at) && at <= k < at + ws[w].len() by {
                if k < b {
                    assert(occurs_at(s, ws[0], i));
                } else {
                    let (w, at) = choose|w: int, at: int|
                        0 <= w < rest.len() && #[trigger] occurs_at(s, rest[w], at) && at <= k < at + rest[w].len();
                    assert(ws[w + 1] == rest[w]);
                    assert(occurs_at(s, ws[w + 1], at));
                }
            }
        }
    }
}

/// The words are exactly the maximal runs of characters that are not whitespace: each word
/// stands in the text with whitespace or an end of the text on both sides, and every
/// character that is not whitespace lies in one of them.
pub proof fn law_words_are_maximal_runs(s: Seq<char>)
    ensures
        forall|w: int| 0 <= w < words(s).len() ==> is_run_of(s, #[trigger] words(s)[w]),
        forall|k: int|
            0 <= k < s.len() && !is_white_space(#[trigger] s[k]) ==> exists|w: int, at: int|
                0 <= w < words(s).len() && #[trigger] occurs_at(s, words(s)[w], at) && at <= k < at + words(s)[w].len(),
{
    lemma_words_from_are_runs(s, 0);
    let ws = words(s);
    assert(ws == words_from(s, 0));
    assert forall|w: int| 0 <= w < ws.len() implies is_run_of(s, #[trigger] ws[w]) by {
        assert(ws[w] == words_from(s, 0)[w]);
    }
}

} // verus!
