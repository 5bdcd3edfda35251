//! Character classes and case mappings that the Unicode tables of the
//! standard library decide.
//!
//! Nothing in this module is proved. Each table lookup gets a name, and the
//! contracts below say only that the standard library's function returns what
//! the name stands for: its result depends on its argument alone. Which
//! characters are letters or white space, and what the other case of a text
//! is, the names leave open.

use vstd::prelude::*;

verus! {

/// Whether `c` is a letter or a digit of any script, as `char::is_alphanumeric`
/// tells it.
pub uninterp spec fn is_alphanumeric_char(c: char) -> bool;

/// Whether `c` is white space, as `char::is_whitespace` tells it.
pub uninterp spec fn is_whitespace_char(c: char) -> bool;

/// The lower-case form of `s`, as `str::to_lowercase` gives it.
pub uninterp spec fn lowercase_of(s: Seq<char>) -> Seq<char>;

/// The upper-case form of `s`, as `str::to_uppercase` gives it.
pub uninterp spec fn uppercase_of(s: Seq<char>) -> Seq<char>;

/// `char::is_alphanumeric` tells whether a character is alphabetic or numeric
/// by the Unicode tables; the result is a function of the character.
pub assume_specification[ char::is_alphanumeric ](c: char) -> (r: bool)
    ensures
        r == is_alphanumeric_char(c),
;

/// `char::is_whitespace` tells whether a character has the Unicode property
/// White_Space; the result is a function of the character.
pub assume_specification[ char::is_whitespace ](c: char) -> (r: bool)
    ensures
        r == is_whitespace_char(c),
;

/// `str::to_lowercase` returns a new string with the lower-case form of the
/// whole text, by the Unicode mapping that holds in every locale; the result
/// is a function of the text.
pub assume_specification[ str::to_lowercase ](s: &str) -> (r: String)
    ensures
        r@ == lowercase_of(s@),
;

/// `str::to_uppercase` returns a new string with the upper-case form of the
/// whole text, by the Unicode mapping that holds in every locale; the result
/// is a function of the text.
pub assume_specification[ str::to_uppercase ](s: &str) -> (r: String)
    ensures
        r@ == uppercase_of(s@),
;

} // verus!
