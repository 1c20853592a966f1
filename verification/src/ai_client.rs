//! Requests to the chat-completions model and reading a probability out of its reply.
use crate::text::{split_words, texts, trim, trimmed, words};
use vstd::prelude::*;
use vstd::string::*;

verus! {

/// What the first capture group of `regex::Regex::new(pattern)` captures in `text`:
/// none where the pattern does not compile, `Some(None)` where nothing matches.
pub uninterp spec fn regex_first_group(pattern: Seq<char>, text: Seq<char>) -> Option<Option<Seq<char>>>;

/// A character that `\d` may match: an ASCII digit, or a character outside ASCII (the other
/// Unicode decimal digits all lie there).
pub open spec fn could_be_digit(c: char) -> bool {
    ('0' <= c && c <= '9') || (c as u32) > 0x7F
}

/// A decimal number as text: one point, with at least one digit before it and one after it.
pub open spec fn decimal_text(m: Seq<char>) -> bool {
    exists|p: int|
        0 < p < m.len() - 1 && m[p] == '.' && forall|k: int| 0 <= k < m.len() && k != p ==> could_be_digit(#[trigger] m[k])
}

/// At index `k` of `t` stand an ASCII digit, a point and an ASCII digit.
pub open spec fn ascii_decimal_at(t: Seq<char>, k: int) -> bool {
    0 <= k && k + 2 < t.len() && '0' <= t[k] && t[k] <= '9' && t[k + 1] == '.' && '0' <= t[k + 2] && t[k + 2] <= '9'
}

/// `m` stands in `text` at some index before which no ASCII decimal number begins.
pub open spec fn leftmost_in(m: Seq<char>, text: Seq<char>) -> bool {
    exists|at: int|
        0 <= at && at + m.len() <= text.len() && #[trigger] text.subrange(at, at + m.len()) == m && forall|k: int|
            0 <= k < at ==> !(#[trigger] ascii_decimal_at(text, k))
}

/// Compiles `pattern` with `regex::Regex::new` and returns the text of the first capture group
/// of the leftmost-first match of `captures(text)`; which text that is, is left to the name
/// `regex_first_group`. Claimed besides, for the pattern of a decimal number: what it captures
/// is a decimal number as text (`\d+` matches only digits, `\.` only the point), standing in
/// the text where no earlier ASCII decimal number begins (the match is the leftmost one).
#[verifier::external_body]
fn regex_capture(pattern: &str, text: &str) -> (r: Option<Option<String>>)
    ensures
        match r {
            None => regex_first_group(pattern@, text@) is None,
            Some(None) => regex_first_group(pattern@, text@) == Some(None::<Seq<char>>),
            Some(Some(m)) => regex_first_group(pattern@, text@) == Some(Some(m@)),
        },
        pattern@ == "(\\d+\\.\\d+)"@ ==> (r matches Some(Some(m)) ==> decimal_text(m@) && leftmost_in(m@, text@)),
{
    match regex::Regex::new(pattern) {
        Err(_) => None,
        Ok(re) => match re.captures(text) {
            None => Some(None),
            Some(cap) => match cap.get(1) {
                Some(m) => Some(Some(m.as_str().to_string())),
                None => Some(None),
            },
        },
    }
}

/// The pattern of a decimal number in a reply: digits, a point, digits.
pub open spec fn decimal_pattern() -> Seq<char> {
    "(\\d+\\.\\d+)"@
}

/// The texts to try, in order, as the probability in a model's reply: the trimmed reply,
/// each of its words, and the first decimal number that the pattern finds in it (which is a
/// decimal number standing leftmost in the reply).
pub open spec fn probability_candidates_spec(reply: Seq<char>) -> Seq<Seq<char>> {
    let content = trimmed(reply);
    let found = match regex_first_group(decimal_pattern(), content) {
        Some(Some(m)) => if decimal_text(m) && leftmost_in(m, content) {
            seq![m]
        } else {
            Seq::empty()
        },
        _ => Seq::empty(),
    };
    seq![content] + words(content) + found
}

/// The texts to try, in order, as the probability in a model's reply; the first that reads as
/// a number is the answer.
pub fn probability_candidates(reply: &str) -> (r: Vec<String>)
    ensures
        texts(r@) == probability_candidates_spec(reply@),
{
    let content = trim(reply);
    let mut out: Vec<String> = Vec::new();
    out.push(content.clone());
    let mut found_words = split_words(content.as_str());
    let ghost head = texts(out@);
    out.append(&mut found_words);
    proof {
        assert(texts(out@) =~= head + words(content@));
    }
    let ghost before = texts(out@);
    match regex_capture("(\\d+\\.\\d+)", content.as_str()) {
        Some(Some(m)) => {
            out.push(m);
            proof {
                assert(texts(out@) =~= before + seq![texts(out@).last()]);
            }
        },
        _ => {},
    }
    proof {
        assert(texts(out@) =~= probability_candidates_spec(reply@));
    }
    out
}

/// The address of the chat-completions endpoint under `base_url`.
pub fn chat_completions_url(base_url: &str) -> (r: String)
    ensures
        r@ == base_url@ + "/chat/completions"@,
{
    let mut url = String::from_str(base_url);
    url.append("/chat/completions");
    url
}

/// The value of the `Authorization` header for `api_key`.
pub fn bearer_authorization(api_key: &str) -> (r: String)
    ensures
        r@ == "Bearer "@ + api_key@,
{
    let mut value = String::from_str("Bearer ");
    value.append(api_key);
    value
}

/// The candidates are the trimmed reply, then its words in order, then at most one more: a
/// decimal number (digits, a point, digits) that stands in the trimmed reply where no earlier
/// ASCII decimal number begins.
pub proof fn law_candidates_end_in_leftmost_decimal(reply: Seq<char>)
    ensures
        ({
            let content = trimmed(reply);
            let c = probability_candidates_spec(reply);
            &&& c.len() == 1 + words(content).len() || c.len() == 2 + words(content).len()
            &&& c[0] == content
            &&& c.subrange(1, 1 + words(content).len() as int) == words(content)
            &&& c.len() == 2 + words(content).len() ==> decimal_text(c.last()) && leftmost_in(c.last(), content)
        }),
{
    let content = trimmed(reply);
    let c = probability_candidates_spec(reply);
    assert(c.subrange(1, 1 + words(content).len() as int) =~= words(content));
}

} // verus!
