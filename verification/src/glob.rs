//! Whole-string patterns: `*` stands for any run of characters, `?` for any
//! one character, and letters match without regard to ASCII case.

use vstd::prelude::*;
use vstd::string::StrSliceExecFns;

verus! {

/// Whether the character is an ASCII capital letter.
pub open spec fn is_capital(c: char) -> bool {
    'A' <= c && c <= 'Z'
}

/// Whether two characters are the same letter in either ASCII case, or the
/// same character.
pub open spec fn same_letter(a: char, b: char) -> bool {
    ||| a == b
    ||| is_capital(a) && b as u32 == a as u32 + 32
    ||| is_capital(b) && a as u32 == b as u32 + 32
}

/// Whether one character of a pattern, which is not `*`, takes one
/// character of a text.
pub open spec fn takes(pattern: char, text: char) -> bool {
    pattern == '?' || same_letter(pattern, text)
}

/// Whether the whole of `text` fits the whole of `pattern`.
pub open spec fn fits(pattern: Seq<char>, text: Seq<char>) -> bool
    decreases pattern.len() + text.len(),
{
    if pattern.len() == 0 {
        text.len() == 0
    } else if pattern.last() == '*' {
        fits(pattern.drop_last(), text) || (text.len() > 0 && fits(pattern, text.drop_last()))
    } else {
        text.len() > 0 && takes(pattern.last(), text.last()) && fits(
            pattern.drop_last(),
            text.drop_last(),
        )
    }
}

/// Every text fits itself taken as a pattern.
pub proof fn lemma_fits_itself(text: Seq<char>)
    ensures
        fits(text, text),
    decreases text.len(),
{
    if text.len() > 0 {
        lemma_fits_itself(text.drop_last());
        if text.last() == '*' {
            assert(fits(text, text.drop_last()));
        }
    }
}

/// A pattern without `*` fits only texts of its own length: nothing of the
/// text may be left over before it or after it.
pub proof fn lemma_without_star_same_length(pattern: Seq<char>, text: Seq<char>)
    requires
        forall|i: int| 0 <= i < pattern.len() ==> pattern[i] != '*',
        fits(pattern, text),
    ensures
        text.len() == pattern.len(),
    decreases pattern.len(),
{
    if pattern.len() > 0 {
        lemma_without_star_same_length(pattern.drop_last(), text.drop_last());
    }
}

/// A pattern that ends in `*` fits every text that starts as a text does
/// that fits the pattern without that `*`.
pub proof fn lemma_star_takes_the_rest(pattern: Seq<char>, text: Seq<char>, fitted: int)
    requires
        0 <= fitted <= text.len(),
        fits(pattern, text.take(fitted)),
    ensures
        fits(pattern.push('*'), text),
    decreases text.len() - fitted,
{
    let starred = pattern.push('*');
    assert(starred.drop_last() == pattern);
    if fitted == text.len() {
        assert(text.take(fitted) == text);
    } else {
        assert(text.drop_last().take(fitted) == text.take(fitted));
        lemma_star_takes_the_rest(pattern, text.drop_last(), fitted);
    }
}

/// The characters of a string slice.
fn chars_of(text: &str) -> (chars: Vec<char>)
    ensures
        chars@ == text@,
{
    let count = text.unicode_len();
    let mut chars: Vec<char> = Vec::new();
    let mut i: usize = 0;
    while i < count
        invariant
            i <= count,
            count == text@.len(),
            chars@ == text@.take(i as int),
        decreases count - i,
    {
        chars.push(text.get_char(i));
        assert(text@.take(i + 1) == text@.take(i as int).push(text@[i as int]));
        i += 1;
    }
    assert(text@.take(count as int) == text@);
    chars
}

/// Whether the character is an ASCII capital letter.
fn capital(c: char) -> (yes: bool)
    ensures
        yes == is_capital(c),
{
    'A' <= c && c <= 'Z'
}

/// Whether one character of a pattern takes one character of a text.
fn char_takes(pattern: char, text: char) -> (yes: bool)
    ensures
        yes == takes(pattern, text),
{
    pattern == '?' || pattern == text || (capital(pattern) && text as u32 == pattern as u32 + 32)
        || (capital(text) && pattern as u32 == text as u32 + 32)
}

/// Whether the whole of `text` fits the whole of `pattern`, where `*` in the
/// pattern stands for any run of characters, `?` for any one character, and
/// letters are taken without regard to ASCII case.
pub fn glob_matches(pattern: &str, text: &str) -> (matched: bool)
    ensures
        matched == fits(pattern@, text@),
{
    let p = chars_of(pattern);
    let t = chars_of(text);
    let n = t.len();
    // row[j] says whether the first j characters of the text fit the part of
    // the pattern that has been read.
    let mut row: Vec<bool> = Vec::new();
    row.push(true);
    let mut j: usize = 0;
    while j < n
        invariant
            j <= n,
            n == t@.len(),
            row@.len() == j + 1,
            forall|k: int| 0 <= k <= j ==> #[trigger] row@[k] == fits(Seq::empty(), t@.take(k)),
        decreases n - j,
    {
        row.push(false);
        j += 1;
    }
    let mut i: usize = 0;
    while i < p.len()
        invariant
            i <= p.len(),
            n == t@.len(),
            row@.len() == n + 1,
            forall|k: int| 0 <= k <= n ==> #[trigger] row@[k] == fits(p@.take(i as int), t@.take(k)),
        decreases p.len() - i,
    {
        let c = p[i];
        let ghost read = p@.take(i as int);
        let ghost next = p@.take(i + 1);
        assert(next.drop_last() == read);
        assert(next.last() == c);
        let mut fresh: Vec<bool> = Vec::new();
        fresh.push(c == '*' && row[0]);
        assert(t@.take(0).len() == 0);
        assert(row.len() == n + 1);
        let mut j: usize = 1;
        while j <= n
            invariant
                1 <= j <= n + 1,
                n < usize::MAX,
                n == t@.len(),
                row@.len() == n + 1,
                fresh@.len() == j,
                next.len() > 0,
                next.drop_last() == read,
                next.last() == c,
                forall|k: int| 0 <= k <= n ==> #[trigger] row@[k] == fits(read, t@.take(k)),
                forall|k: int| 0 <= k < j ==> #[trigger] fresh@[k] == fits(next, t@.take(k)),
            decreases n + 1 - j,
        {
            let ghost part = t@.take(j as int);
            assert(part.drop_last() == t@.take(j - 1));
            assert(part.last() == t@[j - 1]);
            let fit = if c == '*' {
                row[j] || fresh[j - 1]
            } else {
                row[j - 1] && char_takes(c, t[j - 1])
            };
            fresh.push(fit);
            j += 1;
        }
        row = fresh;
        i += 1;
    }
    assert(p@.take(p@.len() as int) == p@);
    assert(t@.take(n as int) == t@);
    row[n]
}

} // verus!
