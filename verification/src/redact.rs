//! Removal of credentials from error text.

use crate::text::{self, chars_of, has, has_at, lower_range, word_ranges};
use vstd::prelude::*;
use vstd::string::*;

verus! {

/// What stands in the place of a word that was taken out.
pub const REDACTED: &'static str = "[REDACTED]";

/// Whether a word, letter case aside, carries or announces a credential by itself.
pub open spec fn credential_shaped(word: Seq<char>) -> bool {
    let lower = text::ascii_lower(word);
    ||| text::contains(lower, "token="@)
    ||| text::contains(lower, "password="@)
    ||| text::contains(lower, "secret="@)
    ||| text::contains(lower, "api_key="@)
    ||| text::contains(lower, "apikey="@)
    ||| text::starts_with(lower, "authorization:"@)
    ||| text::starts_with(lower, "sk-"@)
}

/// Whether a word is the scheme name that a bearer credential follows.
pub open spec fn bearer(word: Seq<char>) -> bool {
    text::ascii_lower(word) == "bearer"@
}

/// Whether the word at `i` is the credential that a `Bearer` before it announces.
/// Such a word announces nothing itself, whatever it is.
pub open spec fn announced(words: Seq<Seq<char>>, i: int) -> bool
    decreases i,
{
    0 < i && bearer(words[i - 1]) && !announced(words, i - 1)
}

/// Whether the word at `i` is taken out.
pub open spec fn hidden(words: Seq<Seq<char>>, i: int) -> bool {
    announced(words, i) || credential_shaped(words[i]) || bearer(words[i])
}

/// The words with each hidden one replaced.
pub open spec fn redacted_words(words: Seq<Seq<char>>) -> Seq<Seq<char>> {
    Seq::new(
        words.len(),
        |i: int|
            if hidden(words, i) {
                REDACTED@
            } else {
                words[i]
            },
    )
}

/// The text that `redact_error` returns: the words of the message, hidden ones
/// replaced, with one space between neighbours.
pub open spec fn redaction(message: Seq<char>) -> Seq<char> {
    text::join(redacted_words(text::words(message)), seq![' '])
}

/// A run that holds a certain character stands in no text without it.
proof fn lemma_lacks(s: Seq<char>, part: Seq<char>, k: int)
    requires
        0 <= k < part.len(),
        !s.contains(part[k]),
    ensures
        !text::contains(s, part),
{
    if text::contains(s, part) {
        let at = choose|at: int| text::occurs_at(s, part, at);
        assert(s[at + k] == part[k]);
    }
}

/// The replacement is a solid word that is neither credential shaped nor a scheme
/// name.
proof fn lemma_replacement_is_plain()
    ensures
        REDACTED@.len() > 0,
        forall|k: int|
            0 <= k < REDACTED@.len() ==> !text::is_white_space(#[trigger] REDACTED@[k]),
        !credential_shaped(REDACTED@),
        !bearer(REDACTED@),
{
    reveal_strlit("[REDACTED]");
    reveal_strlit("token=");
    reveal_strlit("password=");
    reveal_strlit("secret=");
    reveal_strlit("api_key=");
    reveal_strlit("apikey=");
    reveal_strlit("authorization:");
    reveal_strlit("sk-");
    reveal_strlit("bearer");
    let lower = text::ascii_lower(REDACTED@);
    assert(lower[0] == '[');
    assert forall|k: int| 0 <= k < lower.len() implies lower[k] != '=' by {
        assert(REDACTED@[k] != '=');
    }
    lemma_lacks(lower, "token="@, 5);
    lemma_lacks(lower, "password="@, 8);
    lemma_lacks(lower, "secret="@, 6);
    lemma_lacks(lower, "api_key="@, 7);
    lemma_lacks(lower, "apikey="@, 6);
    assert("authorization:"@[0] == 'a');
    assert("sk-"@[0] == 's');
    assert("bearer"@[0] == 'b');
}

/// Each word of a redaction is solid, not credential shaped and no scheme name.
proof fn lemma_redacted_words_are_plain(message: Seq<char>)
    ensures
        ({
            let out = redacted_words(text::words(message));
            forall|i: int|
                0 <= i < out.len() ==> (#[trigger] out[i]).len() > 0 && (forall|k: int|
                    0 <= k < out[i].len() ==> !text::is_white_space(#[trigger] out[i][k]))
                    && !credential_shaped(out[i]) && !bearer(out[i])
        }),
{
    text::lemma_words_are_solid(message);
    lemma_replacement_is_plain();
}

/// The words of a redaction are the words of the message, in their places, with
/// the hidden ones replaced: nothing is merged, split, dropped or reordered.
pub proof fn law_redaction_keeps_word_places(message: Seq<char>)
    ensures
        text::words(redaction(message)) == redacted_words(text::words(message)),
{
    lemma_redacted_words_are_plain(message);
    text::lemma_words_of_join(redacted_words(text::words(message)));
}

/// No word of a redaction is credential shaped, is a scheme name or follows one.
pub proof fn law_redaction_leaves_no_credential(message: Seq<char>, i: int)
    requires
        0 <= i < text::words(redaction(message)).len(),
    ensures
        !hidden(text::words(redaction(message)), i),
{
    law_redaction_keeps_word_places(message);
    lemma_redacted_words_are_plain(message);
    let out = redacted_words(text::words(message));
    if i > 0 {
        assert(!bearer(out[i - 1]));
    }
    assert(!bearer(out[i]) && !credential_shaped(out[i]));
}

/// Redacting a redaction changes nothing.
pub proof fn law_redaction_is_idempotent(message: Seq<char>)
    ensures
        redaction(redaction(message)) == redaction(message),
{
    let out = text::words(redaction(message));
    assert forall|i: int| 0 <= i < out.len() implies redacted_words(out)[i] == out[i] by {
        law_redaction_leaves_no_credential(message, i);
    }
    assert(redacted_words(out) == out);
    law_redaction_keeps_word_places(message);
}

/// Whether a word, given in small letters, carries or announces a credential.
fn is_credential_shaped(lower: &Vec<char>, Ghost(word): Ghost<Seq<char>>) -> (r: bool)
    requires
        lower@ == text::ascii_lower(word),
    ensures
        r == credential_shaped(word),
{
    has(lower, "token=") || has(lower, "password=") || has(lower, "secret=") || has(
        lower,
        "api_key=",
    ) || has(lower, "apikey=") || has_at(lower, "authorization:", 0) || has_at(lower, "sk-", 0)
}

/// Whether lower-cased text is exactly `word`.
fn is_word(lower: &Vec<char>, word: &str) -> (r: bool)
    ensures
        r == (lower@ == word@),
{
    let same: bool = lower.len() == chars_of(word).len() && has_at(lower, word, 0);
    proof {
        if same {
            assert forall|k: int| 0 <= k < word@.len() implies lower@[k] == word@[k] by {
                assert(lower@[0 + k] == word@[k]);
            }
            assert(lower@ == word@);
        }
    }
    same
}

/// Redact common credential shapes before an error reaches an audit sink.
#[must_use]
pub fn redact_error(message: &str) -> (r: String)
    ensures
        r@ == redaction(message@),
{
    let chars: Vec<char> = chars_of(message);
    let ranges: Vec<(usize, usize)> = word_ranges(&chars);
    let ghost words = text::words(message@);
    let ghost out = redacted_words(words);
    let mut r: String = String::new();
    let mut redact_next: bool = false;
    let mut i: usize = 0;
    assert(r@ == text::join(out.take(0), seq![' ']));
    while i < ranges.len()
        invariant
            i <= ranges.len(),
            chars@ == message@,
            words == text::words(message@),
            words == text::cut(chars@, ranges@),
            out == redacted_words(words),
            forall|j: int|
                0 <= j < ranges@.len() ==> (#[trigger] ranges@[j]).0 <= ranges@[j].1 <= chars@.len(),
            i < ranges.len() ==> redact_next == announced(words, i as int),
            r@ == text::join(out.take(i as int), seq![' ']),
        decreases ranges.len() - i,
    {
        let start: usize = ranges[i].0;
        let end: usize = ranges[i].1;
        let ghost word = words[i as int];
        assert(word == chars@.subrange(start as int, end as int));
        let lower: Vec<char> = lower_range(&chars, start, end);
        let shaped: bool = is_credential_shaped(&lower, Ghost(word));
        let scheme: bool = is_word(&lower, "bearer");
        let hide: bool = redact_next || shaped || scheme;
        redact_next = scheme && !redact_next;
        let ghost before = r@;
        if i > 0 {
            r.append(" ");
        }
        if hide {
            r.append(REDACTED);
        } else {
            r.append(message.substring_char(start, end));
        }
        proof {
            reveal_strlit(" ");
            assert(" "@ == seq![' ']);
            assert(out[i as int] == if hide { REDACTED@ } else { word });
            let next = out.take(i + 1);
            assert(next.drop_last() == out.take(i as int));
            assert(next.last() == out[i as int]);
            if i == 0 {
                assert(before == Seq::<char>::empty());
                assert(r@ == out[0]);
            } else {
                assert(r@ == before + seq![' '] + out[i as int]);
            }
        }
        i += 1;
    }
    assert(out.take(out.len() as int) == out);
    r
}

} // verus!
