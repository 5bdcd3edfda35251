//! Strings as sequences of characters: reading a string's characters,
//! writing one, comparing texts, and finding the last occurrence of a
//! character.

use vstd::prelude::*;

verus! {

/// The index of the last occurrence of `c` in `s`, or -1 where `c` does not
/// occur. `lemma_last_index_of` says the same without recursion.
pub open spec fn last_index_of(s: Seq<char>, c: char) -> int
    decreases s.len(),
{
    if s.len() == 0 {
        -1
    } else if s.last() == c {
        s.len() - 1
    } else {
        last_index_of(s.drop_last(), c)
    }
}

/// What follows the last occurrence of `c` in `s`: all of `s` where `c` does
/// not occur.
pub open spec fn after_last(s: Seq<char>, c: char) -> Seq<char> {
    s.subrange(last_index_of(s, c) + 1, s.len() as int)
}

/// `last_index_of(s, c)` is an index of `s` that holds `c`, with no `c` behind
/// it, or it is -1 and `s` holds no `c` at all.
pub proof fn lemma_last_index_of(s: Seq<char>, c: char)
    ensures
        -1 <= last_index_of(s, c) < s.len(),
        last_index_of(s, c) >= 0 ==> s[last_index_of(s, c)] == c,
        forall|j: int| last_index_of(s, c) < j < s.len() ==> s[j] != c,
    decreases s.len(),
{
    if s.len() > 0 && s.last() != c {
        let t = s.drop_last();
        lemma_last_index_of(t, c);
        assert forall|j: int| last_index_of(s, c) < j < s.len() implies s[j] != c by {
            if j < t.len() {
                assert(t[j] == s[j]);
            }
        }
    }
}

/// The index that `lemma_last_index_of` describes is the only one: an index
/// that holds `c` with no `c` behind it is `last_index_of(s, c)`, and so is -1
/// where `s` holds no `c`.
pub proof fn lemma_last_index_of_unique(s: Seq<char>, c: char, i: int)
    requires
        -1 <= i < s.len(),
        i >= 0 ==> s[i] == c,
        forall|j: int| i < j < s.len() ==> s[j] != c,
    ensures
        last_index_of(s, c) == i,
{
    lemma_last_index_of(s, c);
    let k = last_index_of(s, c);
    if k < i {
        assert(s[i] == c);
    } else if i < k {
        assert(s[k] == c);
    }
}

/// What follows the last `c` in `s` holds no `c`. It is all of `s` where `s`
/// holds no `c`; elsewhere `s` is what leads up to its last `c`, that `c`
/// included, and then what follows it.
pub proof fn lemma_after_last(s: Seq<char>, c: char)
    ensures
        !after_last(s, c).contains(c),
        !s.contains(c) ==> after_last(s, c) == s,
        s.contains(c) ==> {
            &&& 0 <= last_index_of(s, c) < s.len()
            &&& s[last_index_of(s, c)] == c
            &&& s == s.subrange(0, last_index_of(s, c) + 1) + after_last(s, c)
        },
{
    lemma_last_index_of(s, c);
    let k = last_index_of(s, c);
    let tail = after_last(s, c);
    if tail.contains(c) {
        let j = choose|j: int| 0 <= j < tail.len() && tail[j] == c;
        assert(s[k + 1 + j] == c);
    }
    if s.contains(c) {
        let j = choose|j: int| 0 <= j < s.len() && s[j] == c;
        assert(k >= 0);
        assert(s =~= s.subrange(0, k + 1) + tail);
    } else {
        if k >= 0 {
            assert(s.contains(s[k]));
        }
        assert(tail =~= s);
    }
}

/// `String::push` appends one character to the end of a string. This is
/// taken from the standard library's documentation and not proved.
pub assume_specification[ String::push ](s: &mut String, c: char)
    ensures
        final(s)@ == old(s)@.push(c),
;

/// The characters of `s`, in order.
pub fn chars_of(s: &str) -> (v: Vec<char>)
    ensures
        v@ == s@,
{
    let mut v: Vec<char> = Vec::new();
    for c in it: s.chars()
        invariant
            v@ == it.seq().take(it.index() as int),
            it.seq() == s@,
    {
        v.push(c);
    }
    v
}

/// Whether the characters in `v` spell `s`.
pub fn spells(v: &Vec<char>, s: &str) -> (r: bool)
    ensures
        r == (v@ == s@),
{
    let mut i: usize = 0;
    for c in it: s.chars()
        invariant
            it.seq() == s@,
            i == it.index(),
            i <= v.len(),
            forall|j: int| 0 <= j < i ==> v@[j] == s@[j],
    {
        if i >= v.len() || v[i] != c {
            return false;
        }
        i += 1;
    }
    if i == v.len() {
        assert(v@ =~= s@);
        true
    } else {
        false
    }
}

/// The position of the last `c` in `v`, if there is one.
pub fn find_last(v: &Vec<char>, c: char) -> (r: Option<usize>)
    ensures
        match r {
            Some(i) => i < v@.len() && i as int == last_index_of(v@, c),
            None => last_index_of(v@, c) == -1,
        },
{
    let mut i: usize = v.len();
    while i > 0
        invariant
            i <= v.len(),
            forall|j: int| i <= j < v.len() ==> v@[j] != c,
        decreases i,
    {
        i -= 1;
        if v[i] == c {
            proof {
                lemma_last_index_of_unique(v@, c, i as int);
            }
            return Some(i);
        }
    }
    proof {
        lemma_last_index_of_unique(v@, c, -1);
    }
    None
}

} // verus!
