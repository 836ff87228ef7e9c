//! Boundary tokens: a random seed is lengthened until it occurs in none of
//! the texts that it has to delimit.

use crate::base64::{lemma_encoded_chars, mime_base64};
use email::MimeMessage;
use vstd::prelude::*;
use vstd::std_specs::iter::IteratorSpec;

verus! {

/// The character that is added to a seed. It is not part of base64 text.
pub const MARK: char = '_';

/// `needle` stands in `text` at position `at`.
pub open spec fn occurs_at(needle: Seq<char>, text: Seq<char>, at: int) -> bool {
    &&& 0 <= at
    &&& at + needle.len() <= text.len()
    &&& text.subrange(at, at + needle.len()) == needle
}

/// `needle` is a substring of `text`.
pub open spec fn occurs(needle: Seq<char>, text: Seq<char>) -> bool {
    exists|at: int| occurs_at(needle, text, at)
}

/// `needle` is a substring of one of `texts`.
pub open spec fn occurs_in_any(needle: Seq<char>, texts: Seq<Seq<char>>) -> bool {
    exists|i: int| 0 <= i < texts.len() && occurs(needle, #[trigger] texts[i])
}

/// The seed followed by `count` marks.
pub open spec fn candidate(seed: Seq<char>, count: nat) -> Seq<char> {
    seed + Seq::new(count, |i: int| MARK)
}

/// `count` is the least number of marks, one at least, with which the seed
/// occurs in none of the texts.
pub open spec fn least_marks(seed: Seq<char>, texts: Seq<Seq<char>>, count: nat) -> bool {
    &&& count >= 1
    &&& !occurs_in_any(candidate(seed, count), texts)
    &&& forall|fewer: nat|
        1 <= fewer < count ==> occurs_in_any(#[trigger] candidate(seed, fewer), texts)
}

/// The boundary token made from `seed` for parts that hold `texts`: the seed
/// followed by as few marks as possible, one at least, such that the token is
/// a substring of none of the texts.
pub open spec fn fresh_token(seed: Seq<char>, texts: Seq<Seq<char>>) -> Seq<char> {
    candidate(seed, choose|count: nat| least_marks(seed, texts, count))
}

/// The character sequences that `texts` hold.
pub open spec fn texts_view(texts: Seq<Vec<char>>) -> Seq<Seq<char>> {
    Seq::new(texts.len(), |i: int| texts[i]@)
}

pub open spec fn is_alphanumeric(c: char) -> bool {
    let n = c as int;
    ||| 'A' as int <= n <= 'Z' as int
    ||| 'a' as int <= n <= 'z' as int
    ||| '0' as int <= n <= '9' as int
}

/// A fresh random token: the boundary that `email::MimeMessage` draws for a
/// new blank message. Whatever is drawn, it has 30 characters, each an ASCII
/// letter or digit.
#[verifier::external_body]
pub(crate) fn random_seed() -> (seed: String)
    ensures
        seed@.len() == 30,
        forall|i: int| 0 <= i < 30 ==> is_alphanumeric(#[trigger] seed@[i]),
{
    MimeMessage::new_blank_message().boundary
}

/// The characters of `s`.
pub fn chars_of(s: &str) -> (chars: Vec<char>)
    ensures
        chars@ == s@,
{
    let mut chars: Vec<char> = Vec::new();
    let mut rest = s.chars();
    loop
        invariant
            chars@ + rest.remaining() == s@,
            rest.obeys_prophetic_iter_laws(),
        decreases s@.len() - chars@.len(),
    {
        match rest.next() {
            Some(c) => {
                chars.push(c);
                assert(chars@ + rest.remaining() =~= s@);
            },
            None => {
                assert(chars@ =~= s@);
                return chars;
            },
        }
    }
}

/// Compares `needle` with the characters of `text` from `at` on.
fn matches_at(needle: &Vec<char>, text: &Vec<char>, at: usize) -> (found: bool)
    requires
        at + needle.len() <= text.len(),
    ensures
        found == occurs_at(needle@, text@, at as int),
{
    let mut j: usize = 0;
    while j < needle.len()
        invariant
            j <= needle.len(),
            at + needle.len() <= text.len(),
            forall|k: int| 0 <= k < j ==> text@[at + k] == needle@[k],
        decreases needle.len() - j,
    {
        if text[at + j] != needle[j] {
            proof {
                let part = text@.subrange(at as int, at + needle@.len());
                assert(part[j as int] == text@[at + j]);
            }
            return false;
        }
        j += 1;
    }
    assert(text@.subrange(at as int, at + needle@.len()) =~= needle@);
    true
}

/// Tells whether `needle` is a substring of `text`.
pub fn occurs_in(needle: &Vec<char>, text: &Vec<char>) -> (found: bool)
    ensures
        found == occurs(needle@, text@),
{
    if needle.len() > text.len() {
        return false;
    }
    let last: usize = text.len() - needle.len();
    let mut at: usize = 0;
    loop
        invariant
            last == text.len() - needle.len(),
            needle.len() <= text.len(),
            at <= last,
            forall|k: int| 0 <= k < at ==> !occurs_at(needle@, text@, k),
        decreases last - at,
    {
        if matches_at(needle, text, at) {
            return true;
        }
        if at == last {
            return false;
        }
        at += 1;
    }
}

/// Tells whether `needle` is a substring of one of `texts`.
pub fn occurs_in_texts(needle: &Vec<char>, texts: &Vec<Vec<char>>) -> (found: bool)
    ensures
        found == occurs_in_any(needle@, texts_view(texts@)),
{
    let mut i: usize = 0;
    while i < texts.len()
        invariant
            i <= texts.len(),
            forall|k: int| 0 <= k < i ==> !occurs(needle@, #[trigger] texts_view(texts@)[k]),
        decreases texts.len() - i,
    {
        if occurs_in(needle, &texts[i]) {
            assert(occurs(needle@, texts_view(texts@)[i as int]));
            return true;
        }
        i += 1;
    }
    false
}

/// The length of the longest of `texts`.
fn longest(texts: &Vec<Vec<char>>) -> (limit: usize)
    ensures
        forall|i: int| 0 <= i < texts@.len() ==> (#[trigger] texts@[i])@.len() <= limit,
{
    let mut limit: usize = 0;
    let mut i: usize = 0;
    while i < texts.len()
        invariant
            i <= texts.len(),
            forall|k: int| 0 <= k < i ==> (#[trigger] texts@[k])@.len() <= limit,
        decreases texts.len() - i,
    {
        if texts[i].len() > limit {
            limit = texts[i].len();
        }
        i += 1;
    }
    limit
}

/// A needle that is longer than a text does not occur in it.
proof fn lemma_longer_absent(needle: Seq<char>, texts: Seq<Seq<char>>, limit: int)
    requires
        forall|i: int| 0 <= i < texts.len() ==> (#[trigger] texts[i]).len() <= limit,
        needle.len() > limit,
    ensures
        !occurs_in_any(needle, texts),
{
}

/// Only one count is the least.
proof fn lemma_least_unique(seed: Seq<char>, texts: Seq<Seq<char>>, a: nat, b: nat)
    requires
        least_marks(seed, texts, a),
        least_marks(seed, texts, b),
    ensures
        a == b,
{
    if a < b {
        assert(occurs_in_any(candidate(seed, a), texts));
    } else if b < a {
        assert(occurs_in_any(candidate(seed, b), texts));
    }
}

/// Below a count with which the seed is absent there is a least such count.
proof fn lemma_least_exists(seed: Seq<char>, texts: Seq<Seq<char>>, bound: nat)
    requires
        bound >= 1,
        !occurs_in_any(candidate(seed, bound), texts),
    ensures
        exists|count: nat| least_marks(seed, texts, count),
    decreases bound,
{
    if forall|fewer: nat|
        1 <= fewer < bound ==> occurs_in_any(#[trigger] candidate(seed, fewer), texts) {
        assert(least_marks(seed, texts, bound));
    } else {
        let fewer = choose|fewer: nat|
            1 <= fewer < bound && !occurs_in_any(#[trigger] candidate(seed, fewer), texts);
        lemma_least_exists(seed, texts, fewer);
    }
}

/// Some length is not exceeded by any of the texts.
proof fn lemma_length_limit(texts: Seq<Seq<char>>) -> (limit: nat)
    ensures
        forall|i: int| 0 <= i < texts.len() ==> (#[trigger] texts[i]).len() <= limit,
    decreases texts.len(),
{
    if texts.len() == 0 {
        0
    } else {
        let rest = lemma_length_limit(texts.drop_last());
        let limit = if texts.last().len() > rest {
            texts.last().len()
        } else {
            rest
        };
        assert forall|i: int| 0 <= i < texts.len() implies (#[trigger] texts[i]).len() <= limit by {
            if i < texts.len() - 1 {
                assert(texts.drop_last()[i] == texts[i]);
            }
        }
        limit
    }
}

/// The token made from a seed ends in a mark and is a substring of none of
/// the texts that it was made for.
pub proof fn lemma_fresh_token(seed: Seq<char>, texts: Seq<Seq<char>>)
    ensures
        !occurs_in_any(fresh_token(seed, texts), texts),
        exists|count: nat| count >= 1 && fresh_token(seed, texts) == candidate(seed, count),
{
    let limit = lemma_length_limit(texts);
    let bound = (limit + 1) as nat;
    assert(candidate(seed, bound).len() > limit);
    lemma_longer_absent(candidate(seed, bound), texts, limit as int);
    lemma_least_exists(seed, texts, bound);
    let count = choose|count: nat| least_marks(seed, texts, count);
    assert(count >= 1 && fresh_token(seed, texts) == candidate(seed, count));
}

/// A token is a substring of no text among those it was made for.
pub proof fn lemma_fresh_token_absent(seed: Seq<char>, texts: Seq<Seq<char>>, i: int)
    requires
        0 <= i < texts.len(),
    ensures
        !occurs(fresh_token(seed, texts), texts[i]),
{
    lemma_fresh_token(seed, texts);
}

/// A token is never a substring of base64 text, whatever it was made for.
pub proof fn lemma_fresh_token_not_in_base64(
    seed: Seq<char>,
    texts: Seq<Seq<char>>,
    bytes: Seq<u8>,
)
    ensures
        !occurs(fresh_token(seed, texts), mime_base64(bytes)),
{
    lemma_fresh_token(seed, texts);
    let token = fresh_token(seed, texts);
    let count = choose|count: nat| count >= 1 && token == candidate(seed, count);
    let text = mime_base64(bytes);
    assert forall|at: int| !occurs_at(token, text, at) by {
        if occurs_at(token, text, at) {
            let part = text.subrange(at, at + token.len());
            assert(part[seed.len() as int] == text[at + seed.len()]);
            assert(token[seed.len() as int] == MARK);
            lemma_encoded_chars(bytes, at + seed.len());
        }
    }
}

/// Makes the boundary token for parts that hold `texts` from `seed`.
pub fn make_boundary(seed: &str, texts: &Vec<Vec<char>>) -> (token: String)
    ensures
        token@ == fresh_token(seed@, texts_view(texts@)),
{
    let ghost all = texts_view(texts@);
    let limit = longest(texts);
    let mut chars = chars_of(seed);
    chars.push(MARK);
    let mut token = String::from_str(seed);
    token.append("_");
    let ghost mut count: nat = 1;
    proof {
        reveal_strlit("_");
        assert("_"@ =~= seq![MARK]);
        assert(chars@ =~= candidate(seed@, 1));
        assert(token@ =~= candidate(seed@, 1));
    }
    loop
        invariant
            all == texts_view(texts@),
            forall|i: int| 0 <= i < texts@.len() ==> (#[trigger] texts@[i])@.len() <= limit,
            count >= 1,
            chars@ == candidate(seed@, count),
            token@ == chars@,
            forall|fewer: nat|
                1 <= fewer < count ==> occurs_in_any(#[trigger] candidate(seed@, fewer), all),
        decreases limit + 2 - chars@.len(),
    {
        if !occurs_in_texts(&chars, texts) {
            proof {
                assert(least_marks(seed@, all, count));
                let chosen = choose|c: nat| least_marks(seed@, all, c);
                lemma_least_unique(seed@, all, count, chosen);
            }
            return token;
        }
        proof {
            if chars@.len() > limit {
                assert forall|i: int| 0 <= i < all.len() implies (#[trigger] all[i]).len()
                    <= limit by {
                    assert(all[i] == texts@[i]@);
                }
                lemma_longer_absent(chars@, all, limit as int);
            }
            reveal_strlit("_");
            assert("_"@ =~= seq![MARK]);
            assert(candidate(seed@, count + 1) =~= candidate(seed@, count).push(MARK));
            assert(chars@.push(MARK) =~= chars@ + seq![MARK]);
        }
        chars.push(MARK);
        token.append("_");
        proof {
            count = count + 1;
        }
    }
}

} // verus!
