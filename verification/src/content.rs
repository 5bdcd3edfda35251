//! Simple transforms of a text, chosen by name: trimming, change of case, and
//! counts of lines and words.

use vstd::prelude::*;
use vstd::string::StrSliceExecFns;
use crate::decimal::{decimal, push_decimal};
use crate::text::{chars_of, spells};
use crate::unicode::{is_whitespace_char, lowercase_of, uppercase_of};

verus! {

/// `s` without the white space that it begins with.
pub open spec fn trim_start(s: Seq<char>) -> Seq<char>
    decreases s.len(),
{
    if s.len() > 0 && is_whitespace_char(s.first()) {
        trim_start(s.drop_first())
    } else {
        s
    }
}

/// `s` without the white space that it ends with.
pub open spec fn trim_end(s: Seq<char>) -> Seq<char>
    decreases s.len(),
{
    if s.len() > 0 && is_whitespace_char(s.last()) {
        trim_end(s.drop_last())
    } else {
        s
    }
}

/// `s` without the white space at either end.
pub open spec fn trimmed(s: Seq<char>) -> Seq<char> {
    trim_end(trim_start(s))
}

/// The number of line feeds in `s`.
pub open spec fn newline_count(s: Seq<char>) -> nat
    decreases s.len(),
{
    if s.len() == 0 {
        0
    } else {
        newline_count(s.drop_last()) + if s.last() == '\n' {
            1nat
        } else {
            0nat
        }
    }
}

/// The number of lines in `s`. A line feed ends a line; text after the last
/// line feed is a line of its own, so a final line feed adds no empty line,
/// and the empty text has no line.
pub open spec fn line_count(s: Seq<char>) -> nat {
    newline_count(s) + if s.len() > 0 && s.last() != '\n' {
        1nat
    } else {
        0nat
    }
}

/// Whether a word begins at index `i` of `s`: the character there is no white
/// space, and it is the first of `s` or follows white space.
pub open spec fn starts_word(s: Seq<char>, i: int) -> bool {
    !is_whitespace_char(s[i]) && (i == 0 || is_whitespace_char(s[i - 1]))
}

/// The number of words in `s`, a word being a longest run of characters that
/// are no white space.
pub open spec fn word_count(s: Seq<char>) -> nat
    decreases s.len(),
{
    if s.len() == 0 {
        0
    } else {
        word_count(s.drop_last()) + if starts_word(s, s.len() - 1) {
            1nat
        } else {
            0nat
        }
    }
}

/// What an operation makes of a text. An operation that has no name here
/// leaves the text as it is.
pub open spec fn processed(content: Seq<char>, operation: Seq<char>) -> Seq<char> {
    if operation == "trim"@ {
        trimmed(content)
    } else if operation == "uppercase"@ {
        uppercase_of(content)
    } else if operation == "lowercase"@ {
        lowercase_of(content)
    } else if operation == "count_lines"@ {
        decimal(line_count(content))
    } else if operation == "count_words"@ {
        decimal(word_count(content))
    } else {
        content
    }
}

/// The bounds of what trimming keeps of `s`.
pub open spec fn trim_bounds(s: Seq<char>) -> (int, int) {
    let a = s.len() - trim_start(s).len();
    (a, a + trimmed(s).len())
}

/// What trimming keeps: the text from its first to its last character that is
/// no white space, and nothing where it has none. `trim_bounds` gives the two
/// ends.
pub proof fn lemma_trim_bounds(s: Seq<char>)
    ensures
        ({
            let (a, b) = trim_bounds(s);
            &&& 0 <= a <= b <= s.len()
            &&& s.subrange(a, b) == trimmed(s)
            &&& forall|i: int| 0 <= i < a || b <= i < s.len() ==> is_whitespace_char(s[i])
            &&& a < b ==> !is_whitespace_char(s[a]) && !is_whitespace_char(s[b - 1])
        }),
{
    lemma_trim_start(s);
    lemma_trim_end(trim_start(s));
    let a = s.len() - trim_start(s).len();
    let t = trim_start(s);
    let b = a + trimmed(s).len();
    assert(s.subrange(a, b) =~= t.subrange(0, trimmed(s).len() as int));
    assert forall|i: int| 0 <= i < a || b <= i < s.len() implies is_whitespace_char(s[i]) by {
        if i >= b {
            assert(t[i - a] == s[i]);
        }
    }
    if a < b {
        assert(t[0] == s[a]);
        assert(trimmed(s)[0] == t[0]);
        assert(trimmed(s).last() == t[b - a - 1]);
    }
}

/// `trim_start` drops a run of white space from the front and stops at the
/// first character that is none.
pub proof fn lemma_trim_start(s: Seq<char>)
    ensures
        trim_start(s).len() <= s.len(),
        trim_start(s) == s.subrange(s.len() - trim_start(s).len(), s.len() as int),
        forall|i: int| 0 <= i < s.len() - trim_start(s).len() ==> is_whitespace_char(s[i]),
        trim_start(s).len() > 0 ==> !is_whitespace_char(trim_start(s).first()),
    decreases s.len(),
{
    if s.len() > 0 && is_whitespace_char(s.first()) {
        let t = s.drop_first();
        lemma_trim_start(t);
        let k = t.len() - trim_start(t).len();
        assert(t.subrange(k, t.len() as int) =~= s.subrange(k + 1, s.len() as int));
        assert forall|i: int| 0 <= i < s.len() - trim_start(s).len() implies is_whitespace_char(
            s[i],
        ) by {
            if i > 0 {
                assert(s[i] == t[i - 1]);
            }
        }
    } else {
        assert(s =~= s.subrange(0, s.len() as int));
    }
}

/// `trim_end` drops a run of white space from the back and stops at the last
/// character that is none.
pub proof fn lemma_trim_end(s: Seq<char>)
    ensures
        trim_end(s).len() <= s.len(),
        trim_end(s) == s.subrange(0, trim_end(s).len() as int),
        forall|i: int| trim_end(s).len() <= i < s.len() ==> is_whitespace_char(s[i]),
        trim_end(s).len() > 0 ==> !is_whitespace_char(trim_end(s).last()),
        trim_end(s).len() > 0 ==> trim_end(s).first() == s.first(),
    decreases s.len(),
{
    if s.len() > 0 && is_whitespace_char(s.last()) {
        let t = s.drop_last();
        lemma_trim_end(t);
        assert(t.subrange(0, trim_end(t).len() as int) =~= s.subrange(
            0,
            trim_end(t).len() as int,
        ));
        assert forall|i: int| trim_end(s).len() <= i < s.len() implies is_whitespace_char(
            s[i],
        ) by {
            if i < t.len() {
                assert(s[i] == t[i]);
            }
        }
    } else {
        assert(s =~= s.subrange(0, s.len() as int));
    }
}

/// `content` without the white space at either end.
pub fn trim(content: &str) -> (text: String)
    ensures
        text@ == trimmed(content@),
{
    let chars = chars_of(content);
    let n = chars.len();
    let mut a: usize = 0;
    assert(chars@.subrange(0, n as int) =~= chars@);
    while a < n && chars[a].is_whitespace()
        invariant
            a <= n,
            n == chars@.len(),
            trim_start(chars@) == trim_start(chars@.subrange(a as int, n as int)),
        decreases n - a,
    {
        assert(chars@.subrange(a as int, n as int).drop_first() =~= chars@.subrange(
            a + 1,
            n as int,
        ));
        a += 1;
    }
    let mut b: usize = n;
    while b > a && chars[b - 1].is_whitespace()
        invariant
            a <= b <= n,
            n == chars@.len(),
            trimmed(chars@) == trim_end(chars@.subrange(a as int, b as int)),
        decreases b,
    {
        assert(chars@.subrange(a as int, b as int).drop_last() =~= chars@.subrange(
            a as int,
            b - 1,
        ));
        b -= 1;
    }
    content.substring_char(a, b).to_owned()
}

/// The number of lines in `content`.
pub fn count_lines(content: &str) -> (count: usize)
    ensures
        count == line_count(content@),
{
    let chars = chars_of(content);
    let n = chars.len();
    let mut feeds: usize = 0;
    let mut i: usize = 0;
    while i < n
        invariant
            i <= n,
            n == chars@.len(),
            feeds == newline_count(chars@.take(i as int)),
            feeds <= i,
            i > 0 && chars@[i - 1] != '\n' ==> feeds < i,
        decreases n - i,
    {
        assert(chars@.take(i + 1).drop_last() =~= chars@.take(i as int));
        if chars[i] == '\n' {
            feeds += 1;
        }
        i += 1;
    }
    assert(chars@.take(n as int) =~= chars@);
    if n > 0 && chars[n - 1] != '\n' {
        feeds + 1
    } else {
        feeds
    }
}

/// The number of words in `content`.
pub fn count_words(content: &str) -> (count: usize)
    ensures
        count == word_count(content@),
{
    let chars = chars_of(content);
    let n = chars.len();
    let mut count: usize = 0;
    let mut after_space = true;
    let mut i: usize = 0;
    while i < n
        invariant
            i <= n,
            n == chars@.len(),
            count == word_count(chars@.take(i as int)),
            count <= i,
            after_space == (i == 0 || is_whitespace_char(chars@[i - 1])),
        decreases n - i,
    {
        assert(chars@.take(i + 1).drop_last() =~= chars@.take(i as int));
        let space = chars[i].is_whitespace();
        if after_space && !space {
            count += 1;
        }
        after_space = space;
        i += 1;
    }
    assert(chars@.take(n as int) =~= chars@);
    count
}

/// Applies the operation named `operation` to `content`: `trim`, `uppercase`,
/// `lowercase`, `count_lines` or `count_words`, the counts as decimal
/// numerals. Under any other name the text comes back as it is.
pub fn process_file_content(content: &str, operation: &str) -> (text: String)
    ensures
        text@ == processed(content@, operation@),
{
    let op = chars_of(operation);
    if spells(&op, "trim") {
        trim(content)
    } else if spells(&op, "uppercase") {
        content.to_uppercase()
    } else if spells(&op, "lowercase") {
        content.to_lowercase()
    } else if spells(&op, "count_lines") {
        let mut text = String::new();
        push_decimal(&mut text, count_lines(content) as u64);
        text
    } else if spells(&op, "count_words") {
        let mut text = String::new();
        push_decimal(&mut text, count_words(content) as u64);
        text
    } else {
        content.to_owned()
    }
}

} // verus!
