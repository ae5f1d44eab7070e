//! Text: white space and words, and what a redaction keeps and hides.

use crate::redact::{self, redact_error};
use crate::text::{
    self, has, has_at, is_blank, join, precedes, str_eq, str_precedes, surround, white_space, words,
};
use vstd::prelude::*;

verus! {

/// White space is what Unicode calls so.
pub proof fn law_white_space(c: char, r: bool)
    requires
        call_ensures(white_space, (c,), r),
    ensures
        r == text::is_white_space(c),
        r <==> {
            let p = c as u32;
            ||| p == 0x9 || p == 0xa || p == 0xb || p == 0xc || p == 0xd || p == 0x20 || p == 0x85
            ||| p == 0xa0 || p == 0x1680 || (0x2000 <= p && p <= 0x200a) || p == 0x2028
            ||| p == 0x2029 || p == 0x202f || p == 0x205f || p == 0x3000
        },
{
}

/// A text is blank exactly if it holds no character but white space.
pub proof fn law_blank(s: &str, r: bool)
    requires
        call_ensures(is_blank, (s,), r),
    ensures
        r <==> !(exists|k: int| 0 <= k < s@.len() && !text::is_white_space(#[trigger] s@[k])),
{
}

/// Strings are equal exactly if their characters are, a text stands whole between two others,
/// and a part is found where its characters stand.
pub proof fn law_strings(
    a: &str,
    b: &str,
    c: &str,
    same: bool,
    all: String,
    chars: &Vec<char>,
    at: usize,
    here: bool,
    anywhere: bool,
)
    requires
        call_ensures(str_eq, (a, b), same),
        call_ensures(surround, (a, b, c), all),
        call_ensures(has_at, (chars, a, at), here),
        call_ensures(has, (chars, a), anywhere),
    ensures
        same <==> a@ == b@,
        all@ == a@ + b@ + c@,
        here <==> at + a@.len() <= chars@.len() && chars@.subrange(
            at as int,
            at + a@.len(),
        ) == a@,
        anywhere <==> exists|n: int|
            0 <= n && n + a@.len() <= chars@.len() && #[trigger] chars@.subrange(n, n + a@.len())
                == a@,
{
    assert forall|n: int| #![trigger text::occurs_at(chars@, a@, n)]
        text::occurs_at(chars@, a@, n) <==> 0 <= n && n + a@.len() <= chars@.len() && chars@.subrange(
            n,
            n + a@.len(),
        ) == a@ by {
        if 0 <= n && n + a@.len() <= chars@.len() {
            let part = chars@.subrange(n, n + a@.len());
            if text::occurs_at(chars@, a@, n) {
                assert forall|k: int| 0 <= k < a@.len() implies part[k] == a@[k] by {
                    assert(chars@[n + k] == a@[k]);
                }
                assert(part =~= a@);
            }
            if part == a@ {
                assert forall|k: int| 0 <= k < a@.len() implies chars@[n + k] == #[trigger] a@[k] by {
                    assert(part[k] == a@[k]);
                }
            }
        }
    }
    assert(here == text::occurs_at(chars@, a@, at as int));
    if anywhere {
        let n = choose|n: int| text::occurs_at(chars@, a@, n);
        assert(chars@.subrange(n, n + a@.len()) == a@);
    } else {
        assert forall|n: int|
            0 <= n && n + a@.len() <= chars@.len() implies #[trigger] chars@.subrange(
            n,
            n + a@.len(),
        ) != a@ by {
            assert(!text::occurs_at(chars@, a@, n));
        }
    }
}

/// One string comes before another if it is a proper beginning of it, or holds the smaller
/// character where they first differ.
pub proof fn law_string_order(a: &str, b: &str, r: bool)
    requires
        call_ensures(str_precedes, (a, b), r),
    ensures
        r <==> exists|n: int| first_difference(a@, b@, n) && comes_first(a@, b@, n),
    decreases a@.len(),
{
    lemma_order(a@, b@);
}

/// Whether two texts agree up to a place and not there.
pub open spec fn first_difference(a: Seq<char>, b: Seq<char>, n: int) -> bool {
    &&& 0 <= n <= a.len() && n <= b.len()
    &&& forall|k: int| 0 <= k < n ==> a[k] == b[k]
    &&& n < a.len() && n < b.len() ==> a[n] != b[n]
}

/// Whether the first of two texts comes first by what stands at a place.
pub open spec fn comes_first(a: Seq<char>, b: Seq<char>, n: int) -> bool {
    n < b.len() && (n == a.len() || a[n] < b[n])
}

/// The order of strings goes by the first difference.
pub proof fn lemma_order(a: Seq<char>, b: Seq<char>)
    ensures
        precedes(a, b) <==> exists|n: int| first_difference(a, b, n) && comes_first(a, b, n),
    decreases a.len(),
{
    if a.len() > 0 && b.len() > 0 && a[0] == b[0] {
        let (x, y) = (a.drop_first(), b.drop_first());
        lemma_order(x, y);
        if precedes(x, y) {
            let n = choose|n: int| first_difference(x, y, n) && comes_first(x, y, n);
            assert forall|k: int| 0 <= k < n + 1 implies a[k] == b[k] by {
                if k > 0 {
                    assert(x[k - 1] == y[k - 1]);
                }
            }
            assert(first_difference(a, b, n + 1) && comes_first(a, b, n + 1));
        }
        if exists|n: int| first_difference(a, b, n) && comes_first(a, b, n) {
            let n = choose|n: int| first_difference(a, b, n) && comes_first(a, b, n);
            assert(n > 0);
            assert forall|k: int| 0 <= k < n - 1 implies x[k] == y[k] by {
                assert(a[k + 1] == b[k + 1]);
            }
            assert(first_difference(x, y, n - 1) && comes_first(x, y, n - 1));
        }
    } else {
        if precedes(a, b) {
            assert(first_difference(a, b, 0) && comes_first(a, b, 0));
        }
        if exists|n: int| first_difference(a, b, n) && comes_first(a, b, n) {
            let n = choose|n: int| first_difference(a, b, n) && comes_first(a, b, n);
            if n > 0 {
                assert(a[0] == b[0]);
            }
        }
    }
}

/// White space parts words and nothing else does: the words of two texts with white space
/// between them are the words of the one followed by those of the other, a text without
/// white space is one word, and an empty one is none.
pub proof fn law_words(a: Seq<char>, c: char, b: Seq<char>, word: Seq<char>)
    requires
        text::is_white_space(c),
        word.len() > 0,
        forall|k: int| 0 <= k < word.len() ==> !text::is_white_space(#[trigger] word[k]),
    ensures
        words(a + seq![c] + b) == words(a) + words(b),
        words(word) == seq![word],
        words(Seq::empty()).len() == 0,
{
    text::lemma_words_of_word(word);
    lemma_words_apart(a, c, b);
}

/// The words of two texts with white space between them.
proof fn lemma_words_apart(a: Seq<char>, c: char, b: Seq<char>)
    requires
        text::is_white_space(c),
    ensures
        words(a + seq![c] + b) == words(a) + words(b),
    decreases b.len(),
{
    let s = a + seq![c] + b;
    if b.len() == 0 {
        assert(s.drop_last() =~= a);
        assert(words(a) + words(b) =~= words(a));
    } else {
        let front = b.drop_last();
        lemma_words_apart(a, c, front);
        assert(s.drop_last() =~= a + seq![c] + front);
        assert(s.last() == b.last());
        if b.len() == 1 {
            assert(s[s.len() - 2] == c);
            assert(words(front) =~= Seq::<Seq<char>>::empty());
            if !text::is_white_space(b.last()) {
                assert(words(b) =~= seq![seq![b.last()]]);
                assert(words(s) =~= words(a) + words(b));
            }
        } else {
            assert(s[s.len() - 2] == b[b.len() - 2]);
            if !text::is_white_space(b.last()) {
                if text::is_white_space(b[b.len() - 2]) {
                    assert(words(s) =~= words(a) + words(b));
                } else {
                    assert(front.last() == b[b.len() - 2]);
                    text::lemma_words_end(front);
                    let whole = words(a) + words(front);
                    assert(whole.last() == words(front).last());
                    assert(whole.drop_last() =~= words(a) + words(front).drop_last());
                    assert(words(s) =~= words(a) + words(b));
                }
            }
        }
    }
}

/// Joined parts stand one after the other with the separator between neighbours.
pub proof fn law_join(parts: Seq<Seq<char>>, part: Seq<char>, separator: Seq<char>)
    ensures
        join(Seq::empty(), separator).len() == 0,
        join(seq![part], separator) == part,
        parts.len() > 0 ==> join(parts.push(part), separator) == join(parts, separator) + separator
            + part,
{
    assert(parts.push(part).drop_last() =~= parts);
    assert(seq![part][0] == part);
}

/// Whether two characters are the same, ASCII letter case aside; the second is a small letter
/// or none.
pub open spec fn same_letter(c: char, small: char) -> bool {
    c == small && !('A' <= c <= 'Z') || ('A' <= c <= 'Z' && small as int == c as int + 32)
}

/// Whether a word has a part at a place, ASCII letter case aside.
pub open spec fn reads_at(word: Seq<char>, part: Seq<char>, at: int) -> bool {
    &&& 0 <= at && at + part.len() <= word.len()
    &&& forall|k: int| 0 <= k < part.len() ==> same_letter(word[at + k], #[trigger] part[k])
}

/// Whether a word has a part anywhere, ASCII letter case aside.
pub open spec fn reads(word: Seq<char>, part: Seq<char>) -> bool {
    exists|at: int| reads_at(word, part, at)
}

/// Whether a word carries or announces a credential by itself.
pub open spec fn tells(word: Seq<char>) -> bool {
    ||| reads(word, "token="@) || reads(word, "password="@) || reads(word, "secret="@)
    ||| reads(word, "api_key="@) || reads(word, "apikey="@)
    ||| reads_at(word, "authorization:"@, 0) || reads_at(word, "sk-"@, 0)
}

/// Whether a word is the name of the scheme that a credential follows.
pub open spec fn names_scheme(word: Seq<char>) -> bool {
    word.len() == 6 && reads_at(word, "bearer"@, 0)
}

/// Whether `told` marks the words that a scheme name before them announces: the word behind a
/// scheme name is one, unless that name was announced itself.
pub open spec fn marks(told: Seq<bool>, words: Seq<Seq<char>>) -> bool {
    &&& told.len() == words.len()
    &&& words.len() > 0 ==> !told[0]
    &&& forall|i: int|
        1 <= i < words.len() ==> #[trigger] told[i] == (names_scheme(words[i - 1]) && !told[i - 1])
}

/// Whether `out` is what is left of words: each stays as it is, unless it is announced, tells
/// a credential or names a scheme; then a mark stands in its place.
pub open spec fn left_of(out: Seq<Seq<char>>, words: Seq<Seq<char>>, told: Seq<bool>) -> bool {
    &&& out.len() == words.len()
    &&& forall|i: int|
        0 <= i < words.len() ==> #[trigger] out[i] == if told[i] || tells(words[i]) || names_scheme(
            words[i],
        ) {
            "[REDACTED]"@
        } else {
            words[i]
        }
}

/// Reading a part in a word is finding it in the word's small letters.
proof fn lemma_reads_at(word: Seq<char>, part: Seq<char>, at: int)
    ensures
        reads_at(word, part, at) <==> text::occurs_at(text::ascii_lower(word), part, at),
{
    let lower = text::ascii_lower(word);
    if 0 <= at && at + part.len() <= word.len() {
        assert forall|k: int| 0 <= k < part.len() implies (same_letter(
            word[at + k],
            #[trigger] part[k],
        ) <==> lower[at + k] == part[k]) by {
            let c = word[at + k];
            let l = lower[at + k];
            assert(l == text::ascii_lower_char(c));
            if 'A' <= c <= 'Z' {
                assert(l as int == c as int + 32);
            }
        }
    }
}

/// Reading a part anywhere in a word is finding it in the word's small letters.
proof fn lemma_reads(word: Seq<char>, part: Seq<char>)
    ensures
        reads(word, part) <==> text::contains(text::ascii_lower(word), part),
{
    if reads(word, part) {
        let at = choose|at: int| reads_at(word, part, at);
        lemma_reads_at(word, part, at);
    }
    if text::contains(text::ascii_lower(word), part) {
        let at = choose|at: int| text::occurs_at(text::ascii_lower(word), part, at);
        lemma_reads_at(word, part, at);
    }
}

/// What tells a credential, and what names a scheme.
proof fn lemma_tells(word: Seq<char>)
    ensures
        tells(word) <==> redact::credential_shaped(word),
        names_scheme(word) <==> redact::bearer(word),
{
    lemma_reads(word, "token="@);
    lemma_reads(word, "password="@);
    lemma_reads(word, "secret="@);
    lemma_reads(word, "api_key="@);
    lemma_reads(word, "apikey="@);
    lemma_reads_at(word, "authorization:"@, 0);
    lemma_reads_at(word, "sk-"@, 0);
    lemma_reads_at(word, "bearer"@, 0);
    reveal_strlit("bearer");
    let lower = text::ascii_lower(word);
    if names_scheme(word) {
        assert forall|k: int| 0 <= k < 6 implies lower[k] == "bearer"@[k] by {
            assert(lower[0 + k] == "bearer"@[k]);
        }
        assert(lower =~= "bearer"@);
    }
    if lower == "bearer"@ {
        assert(text::occurs_at(lower, "bearer"@, 0));
    }
}

/// A redaction goes word by word: it is the words of the message with one space between
/// neighbours, each in its place and as it is, unless it tells a credential, names a scheme
/// or is announced by one; then a mark stands in its place.
pub proof fn law_redaction_goes_word_by_word(message: &str, r: String)
    requires
        call_ensures(redact_error, (message,), r),
    ensures
        exists|told: Seq<bool>, out: Seq<Seq<char>>|
            #![trigger left_of(out, words(message@), told)]
            marks(told, words(message@)) && left_of(out, words(message@), told) && r@ == join(
                out,
                seq![' '],
            ) && words(r@) == out,
{
    lemma_redaction_goes_word_by_word(message@);
}

/// The redaction of a text goes word by word.
pub proof fn lemma_redaction_goes_word_by_word(message: Seq<char>)
    ensures
        exists|told: Seq<bool>, out: Seq<Seq<char>>|
            #![trigger left_of(out, words(message), told)]
            marks(told, words(message)) && left_of(out, words(message), told) && redact::redaction(
                message,
            ) == join(out, seq![' ']) && words(redact::redaction(message)) == out,
{
    let w = words(message);
    let told = Seq::new(w.len(), |i: int| redact::announced(w, i));
    let out = redact::redacted_words(w);
    assert forall|i: int| 1 <= i < w.len() implies #[trigger] told[i] == (names_scheme(w[i - 1])
        && !told[i - 1]) by {
        lemma_tells(w[i - 1]);
        assert(told[i - 1] == redact::announced(w, i - 1));
    }
    assert forall|i: int| 0 <= i < w.len() implies #[trigger] out[i] == if told[i] || tells(w[i])
        || names_scheme(w[i]) {
        "[REDACTED]"@
    } else {
        w[i]
    } by {
        lemma_tells(w[i]);
    }
    redact::law_redaction_keeps_word_places(message);
    assert(marks(told, w) && left_of(out, w, told));
}

/// A text that holds nothing to hide is kept: words without white space, none of which tells a
/// credential or names a scheme, joined with single spaces, stay the text they are.
pub proof fn law_plain_text_is_kept(parts: Seq<Seq<char>>, message: &str, r: String)
    requires
        message@ == join(parts, seq![' ']),
        forall|i: int|
            0 <= i < parts.len() ==> (#[trigger] parts[i]).len() > 0 && !tells(parts[i])
                && !names_scheme(parts[i]),
        forall|i: int, k: int|
            0 <= i < parts.len() && 0 <= k < parts[i].len() ==> !text::is_white_space(
                #[trigger] parts[i][k],
            ),
        call_ensures(redact_error, (message,), r),
    ensures
        r@ == message@,
{
    lemma_plain_text_is_kept(parts);
}

/// A text that holds nothing to hide is its own redaction.
pub proof fn lemma_plain_text_is_kept(parts: Seq<Seq<char>>)
    requires
        forall|i: int|
            0 <= i < parts.len() ==> (#[trigger] parts[i]).len() > 0 && !tells(parts[i])
                && !names_scheme(parts[i]),
        forall|i: int, k: int|
            0 <= i < parts.len() && 0 <= k < parts[i].len() ==> !text::is_white_space(
                #[trigger] parts[i][k],
            ),
    ensures
        redact::redaction(join(parts, seq![' '])) == join(parts, seq![' ']),
{
    let message = join(parts, seq![' ']);
    text::lemma_words_of_join(parts);
    let out = redact::redacted_words(words(message));
    assert forall|i: int| 0 <= i < parts.len() implies out[i] == parts[i] by {
        lemma_tells(parts[i]);
        if i > 0 {
            lemma_tells(parts[i - 1]);
        }
    }
    assert(out =~= parts);
}

} // verus!
