//! Character-level text operations: white space, words, ASCII case, searching,
//! joining and the order of strings.

use vstd::prelude::*;
use vstd::string::*;

verus! {

/// The characters with the Unicode `White_Space` property.
pub open spec fn is_white_space(c: char) -> bool {
    let p = c as u32;
    ||| 0x9 <= p <= 0xd
    ||| p == 0x20
    ||| p == 0x85
    ||| p == 0xa0
    ||| p == 0x1680
    ||| 0x2000 <= p <= 0x200a
    ||| p == 0x2028
    ||| p == 0x2029
    ||| p == 0x202f
    ||| p == 0x205f
    ||| p == 0x3000
}

/// Whether every character is white space; an empty text is blank.
pub open spec fn blank(s: Seq<char>) -> bool {
    forall|i: int| 0 <= i < s.len() ==> is_white_space(#[trigger] s[i])
}

/// The maximal runs of characters that are not white space, in order.
///
/// The last character either separates words, starts a word of its own (it is
/// the first character or follows white space), or extends the last word.
pub open spec fn words(s: Seq<char>) -> Seq<Seq<char>>
    decreases s.len(),
{
    if s.len() == 0 {
        seq![]
    } else {
        let front = words(s.drop_last());
        if is_white_space(s.last()) {
            front
        } else if s.len() == 1 || is_white_space(s[s.len() - 2]) {
            front.push(seq![s.last()])
        } else {
            front.drop_last().push(front.last().push(s.last()))
        }
    }
}

/// The character with an ASCII capital letter replaced by its small letter.
pub open spec fn ascii_lower_char(c: char) -> char {
    if 'A' <= c <= 'Z' {
        (c as u32 + 32) as char
    } else {
        c
    }
}

/// The text with every ASCII capital letter replaced by its small letter.
pub open spec fn ascii_lower(s: Seq<char>) -> Seq<char> {
    s.map_values(|c: char| ascii_lower_char(c))
}

/// Whether `part` stands in `s` as a contiguous run that starts at `at`.
pub open spec fn occurs_at(s: Seq<char>, part: Seq<char>, at: int) -> bool {
    &&& 0 <= at <= s.len() - part.len()
    &&& forall|k: int| 0 <= k < part.len() ==> s[at + k] == #[trigger] part[k]
}

/// Whether `part` stands anywhere in `s` as a contiguous run.
pub open spec fn contains(s: Seq<char>, part: Seq<char>) -> bool {
    exists|at: int| occurs_at(s, part, at)
}

/// Whether `s` starts with `part`.
pub open spec fn starts_with(s: Seq<char>, part: Seq<char>) -> bool {
    occurs_at(s, part, 0)
}

/// The parts one after the other, with `separator` between neighbours.
pub open spec fn join(parts: Seq<Seq<char>>, separator: Seq<char>) -> Seq<char>
    decreases parts.len(),
{
    if parts.len() == 0 {
        seq![]
    } else if parts.len() == 1 {
        parts[0]
    } else {
        join(parts.drop_last(), separator) + separator + parts.last()
    }
}

/// The order of strings: by the first character in which they differ, a proper
/// prefix before the longer text.
pub open spec fn precedes(a: Seq<char>, b: Seq<char>) -> bool
    decreases a.len(),
{
    if b.len() == 0 {
        false
    } else if a.len() == 0 {
        true
    } else if a[0] != b[0] {
        a[0] < b[0]
    } else {
        precedes(a.drop_first(), b.drop_first())
    }
}

/// The runs of `s` between the given positions.
pub open spec fn cut(s: Seq<char>, ranges: Seq<(usize, usize)>) -> Seq<Seq<char>> {
    ranges.map_values(|r: (usize, usize)| s.subrange(r.0 as int, r.1 as int))
}

/// A text whose last character is not white space has a last word.
pub proof fn lemma_words_end(s: Seq<char>)
    requires
        s.len() > 0,
        !is_white_space(s.last()),
    ensures
        words(s).len() > 0,
    decreases s.len(),
{
    if s.len() > 1 && !is_white_space(s[s.len() - 2]) {
        lemma_words_end(s.drop_last());
    }
}

/// Words are not empty and hold no white space.
pub proof fn lemma_words_are_solid(s: Seq<char>)
    ensures
        forall|i: int|
            0 <= i < words(s).len() ==> (#[trigger] words(s)[i]).len() > 0 && forall|k: int|
                0 <= k < words(s)[i].len() ==> !is_white_space(#[trigger] words(s)[i][k]),
    decreases s.len(),
{
    if s.len() > 0 {
        let front = words(s.drop_last());
        lemma_words_are_solid(s.drop_last());
        if !is_white_space(s.last()) {
            if s.len() > 1 && !is_white_space(s[s.len() - 2]) {
                lemma_words_end(s.drop_last());
                let grown = front.last().push(s.last());
                assert(words(s) == front.drop_last().push(grown));
                assert(front[front.len() - 1] == front.last());
            } else {
                assert(words(s) == front.push(seq![s.last()]));
            }
        }
    }
}

/// A solid word behind a space is the last word of the whole text.
proof fn lemma_words_behind_space(a: Seq<char>, w: Seq<char>)
    requires
        w.len() > 0,
        forall|k: int| 0 <= k < w.len() ==> !is_white_space(#[trigger] w[k]),
    ensures
        words(a + seq![' '] + w) == words(a).push(w),
    decreases w.len(),
{
    let s = a + seq![' '] + w;
    assert(s.last() == w[w.len() - 1]);
    if w.len() == 1 {
        assert(s.drop_last() == a + seq![' ']);
        assert((a + seq![' ']).drop_last() == a);
        assert((a + seq![' ']).last() == ' ');
        assert(words(a + seq![' ']) == words(a));
        assert(s[s.len() - 2] == ' ');
        assert(words(s) == words(a).push(seq![s.last()]));
        assert(w == seq![s.last()]);
    } else {
        let shorter = w.drop_last();
        assert(s.drop_last() == a + seq![' '] + shorter);
        assert(s[s.len() - 2] == w[w.len() - 2]);
        lemma_words_behind_space(a, shorter);
        assert(shorter.push(s.last()) == w);
        assert(words(a).push(shorter).drop_last() == words(a));
    }
}

/// A solid text is its own only word.
pub proof fn lemma_words_of_word(w: Seq<char>)
    requires
        w.len() > 0,
        forall|k: int| 0 <= k < w.len() ==> !is_white_space(#[trigger] w[k]),
    ensures
        words(w) == seq![w],
    decreases w.len(),
{
    assert(w.last() == w[w.len() - 1]);
    if w.len() == 1 {
        assert(words(w.drop_last()) == Seq::<Seq<char>>::empty());
        assert(w == seq![w.last()]);
    } else {
        let shorter = w.drop_last();
        assert(w[w.len() - 2] == shorter[shorter.len() - 1]);
        lemma_words_of_word(shorter);
        assert(shorter.push(w.last()) == w);
    }
}

/// Joining solid words with a space and taking the words of the result gives the
/// same words back.
pub proof fn lemma_words_of_join(parts: Seq<Seq<char>>)
    requires
        forall|i: int|
            0 <= i < parts.len() ==> (#[trigger] parts[i]).len() > 0 && forall|k: int|
                0 <= k < parts[i].len() ==> !is_white_space(#[trigger] parts[i][k]),
    ensures
        words(join(parts, seq![' '])) == parts,
    decreases parts.len(),
{
    if parts.len() == 1 {
        lemma_words_of_word(parts[0]);
    } else if parts.len() > 1 {
        let front = parts.drop_last();
        assert forall|i: int| 0 <= i < front.len() implies (#[trigger] front[i]).len() > 0
            && forall|k: int| 0 <= k < front[i].len() ==> !is_white_space(#[trigger] front[i][k]) by {
            assert(front[i] == parts[i]);
        }
        lemma_words_of_join(front);
        assert(parts[parts.len() - 1] == parts.last());
        lemma_words_behind_space(join(front, seq![' ']), parts.last());
        assert(front.push(parts.last()) == parts);
    }
}

/// Nothing precedes itself.
pub proof fn lemma_precedes_irreflexive(a: Seq<char>)
    ensures
        !precedes(a, a),
    decreases a.len(),
{
    if a.len() > 0 {
        lemma_precedes_irreflexive(a.drop_first());
    }
}

/// The order of strings is transitive.
pub proof fn lemma_precedes_transitive(a: Seq<char>, b: Seq<char>, c: Seq<char>)
    requires
        precedes(a, b),
        precedes(b, c),
    ensures
        precedes(a, c),
    decreases a.len(),
{
    if a.len() > 0 && a[0] == b[0] && b[0] == c[0] {
        lemma_precedes_transitive(a.drop_first(), b.drop_first(), c.drop_first());
    }
}

/// Of two different strings one precedes the other.
pub proof fn lemma_precedes_total(a: Seq<char>, b: Seq<char>)
    ensures
        a == b || precedes(a, b) || precedes(b, a),
    decreases a.len(),
{
    if a.len() > 0 && b.len() > 0 && a[0] == b[0] {
        lemma_precedes_total(a.drop_first(), b.drop_first());
        if a.drop_first() == b.drop_first() {
            assert(a == seq![a[0]] + a.drop_first());
            assert(b == seq![b[0]] + b.drop_first());
        }
    } else if a.len() == 0 && b.len() == 0 {
        assert(a == b);
    }
}

/// The characters of a string.
pub fn chars_of(s: &str) -> (r: Vec<char>)
    ensures
        r@ == s@,
{
    let mut r: Vec<char> = Vec::new();
    for c in it: s.chars()
        invariant
            r@ == it.seq().take(it.index() as int),
            it.seq() == s@,
    {
        r.push(c);
    }
    r
}

/// Whether two strings hold the same characters.
pub fn str_eq(a: &str, b: &str) -> (r: bool)
    ensures
        r == (a@ == b@),
{
    a.to_owned() == b.to_owned()
}

/// A text between two others.
pub fn surround(before: &str, middle: &str, behind: &str) -> (r: String)
    ensures
        r@ == before@ + middle@ + behind@,
{
    let mut r: String = before.to_owned();
    r.append(middle);
    r.append(behind);
    r
}

/// Whether a character is white space.
pub fn white_space(c: char) -> (r: bool)
    ensures
        r == is_white_space(c),
{
    let p: u32 = c as u32;
    (0x9 <= p && p <= 0xd) || p == 0x20 || p == 0x85 || p == 0xa0 || p == 0x1680 || (0x2000 <= p
        && p <= 0x200a) || p == 0x2028 || p == 0x2029 || p == 0x202f || p == 0x205f || p == 0x3000
}

/// Whether a string is empty or holds only white space.
pub fn is_blank(s: &str) -> (r: bool)
    ensures
        r == blank(s@),
{
    let chars: Vec<char> = chars_of(s);
    let mut i: usize = 0;
    while i < chars.len()
        invariant
            i <= chars.len(),
            chars@ == s@,
            forall|j: int| 0 <= j < i ==> is_white_space(#[trigger] s@[j]),
        decreases chars.len() - i,
    {
        if !white_space(chars[i]) {
            assert(!is_white_space(s@[i as int]));
            return false;
        }
        i += 1;
    }
    true
}

/// The positions of the words of a text: the start of each and the position
/// behind its end.
pub fn word_ranges(chars: &Vec<char>) -> (r: Vec<(usize, usize)>)
    ensures
        cut(chars@, r@) == words(chars@),
        forall|i: int| 0 <= i < r@.len() ==> (#[trigger] r@[i]).0 <= r@[i].1 <= chars@.len(),
{
    let mut r: Vec<(usize, usize)> = Vec::new();
    let mut i: usize = 0;
    assert(cut(chars@, r@) == words(chars@.take(0)));
    while i < chars.len()
        invariant
            i <= chars.len(),
            cut(chars@, r@) == words(chars@.take(i as int)),
            forall|j: int| 0 <= j < r@.len() ==> (#[trigger] r@[j]).0 <= r@[j].1 <= i,
            i > 0 && !is_white_space(chars@[i - 1]) ==> r@.len() > 0 && r@.last().1 == i,
        decreases chars.len() - i,
    {
        let ghost so_far = chars@.take(i as int);
        let ghost next = chars@.take(i + 1);
        let ghost before = r@;
        proof {
            assert(next.drop_last() == so_far);
            assert(next.last() == chars@[i as int]);
            assert(i > 0 ==> next[next.len() - 2] == chars@[i - 1]);
        }
        if !white_space(chars[i]) {
            if i == 0 || white_space(chars[i - 1]) {
                r.push((i, i + 1));
                proof {
                    assert(chars@.subrange(i as int, i + 1) == seq![chars@[i as int]]);
                    assert(cut(chars@, r@) == words(so_far).push(seq![chars@[i as int]]));
                }
            } else {
                let last: usize = r.len() - 1;
                let start: usize = r[last].0;
                r.set(last, (start, i + 1));
                proof {
                    let front = words(so_far);
                    assert(front.last() == chars@.subrange(start as int, i as int));
                    assert(chars@.subrange(start as int, i + 1) == front.last().push(chars@[i as int]));
                    assert forall|j: int| 0 <= j < last implies cut(chars@, r@)[j] == #[trigger] front[j] by {
                        assert(r@[j] == before[j]);
                        assert(cut(chars@, before)[j] == front[j]);
                    }
                    assert(cut(chars@, r@) == front.drop_last().push(front.last().push(chars@[i as int])));
                }
            }
        }
        i += 1;
    }
    assert(chars@.take(chars@.len() as int) == chars@);
    r
}

/// A character with an ASCII capital letter made small.
pub fn lower_char(c: char) -> (r: char)
    ensures
        r == ascii_lower_char(c),
{
    if 'A' <= c && c <= 'Z' {
        ((c as u8) + 32) as char
    } else {
        c
    }
}

/// The characters `start..end` of a text with ASCII capital letters made small.
pub fn lower_range(chars: &Vec<char>, start: usize, end: usize) -> (r: Vec<char>)
    requires
        start <= end <= chars@.len(),
    ensures
        r@ == ascii_lower(chars@.subrange(start as int, end as int)),
{
    let mut r: Vec<char> = Vec::new();
    let mut i: usize = start;
    let ghost run = chars@.subrange(start as int, end as int);
    while i < end
        invariant
            start <= i <= end <= chars@.len(),
            run == chars@.subrange(start as int, end as int),
            r@ == ascii_lower(run.take(i - start)),
        decreases end - i,
    {
        r.push(lower_char(chars[i]));
        proof {
            assert(run.take(i - start + 1) == run.take(i - start).push(chars@[i as int]));
            assert(r@ == ascii_lower(run.take(i - start + 1)));
        }
        i += 1;
    }
    assert(run.take(end - start) == run);
    r
}

/// Whether `part` stands in the text at position `at`.
pub fn has_at(chars: &Vec<char>, part: &str, at: usize) -> (r: bool)
    ensures
        r == occurs_at(chars@, part@, at as int),
{
    let wanted: Vec<char> = chars_of(part);
    if at > chars.len() || wanted.len() > chars.len() - at {
        return false;
    }
    let mut k: usize = 0;
    while k < wanted.len()
        invariant
            k <= wanted.len(),
            wanted@ == part@,
            at + wanted@.len() <= chars.len(),
            forall|j: int| 0 <= j < k ==> chars@[at + j] == #[trigger] part@[j],
        decreases wanted.len() - k,
    {
        if chars[at + k] != wanted[k] {
            assert(chars@[at + k] != part@[k as int]);
            return false;
        }
        k += 1;
    }
    true
}

/// Whether `part` stands anywhere in the text.
pub fn has(chars: &Vec<char>, part: &str) -> (r: bool)
    ensures
        r == contains(chars@, part@),
{
    let mut at: usize = 0;
    while at < chars.len()
        invariant
            at <= chars.len(),
            forall|j: int| 0 <= j < at ==> !occurs_at(chars@, part@, j),
        decreases chars.len() - at,
    {
        if has_at(chars, part, at) {
            return true;
        }
        at += 1;
    }
    has_at(chars, part, at)
}

/// Whether the first string precedes the second.
pub fn str_precedes(a: &str, b: &str) -> (r: bool)
    ensures
        r == precedes(a@, b@),
{
    let x: Vec<char> = chars_of(a);
    let y: Vec<char> = chars_of(b);
    let mut i: usize = 0;
    proof {
        assert(a@.skip(0) == a@);
        assert(b@.skip(0) == b@);
    }
    while i < x.len() && i < y.len()
        invariant
            i <= x.len(),
            i <= y.len(),
            x@ == a@,
            y@ == b@,
            precedes(a@, b@) == precedes(a@.skip(i as int), b@.skip(i as int)),
        decreases x.len() - i,
    {
        let ghost u = a@.skip(i as int);
        let ghost v = b@.skip(i as int);
        assert(u[0] == x@[i as int] && v[0] == y@[i as int]);
        if x[i] != y[i] {
            return x[i] < y[i];
        }
        assert(u.drop_first() == a@.skip(i + 1));
        assert(v.drop_first() == b@.skip(i + 1));
        i += 1;
    }
    i < y.len()
}

} // verus!
