use vstd::prelude::*;

use crate::errors::BlockStringError;

verus! {

/// The three symbolic block designators the wire protocol accepts in place
/// of a block number.
#[derive(Clone, Copy, Debug, PartialEq, Eq, Structural)]
pub enum BlockString {
    Earliest,
    Latest,
    Pending,
}

/// Does `a` match `b` when ASCII upper case letters in `a` are folded down?
/// `b` is meant to be already lower case.
pub open spec fn char_matches_folded(a: char, b: char) -> bool {
    a == b || ('A' <= a && a <= 'Z' && (a as int) + 32 == (b as int))
}

/// Case-insensitive match of `s` against the lower-case word `t`.
pub open spec fn matches_word(s: Seq<char>, t: Seq<char>) -> bool {
    s.len() == t.len() && (forall|i: int|
        0 <= i < s.len() ==> char_matches_folded(#[trigger] s[i], t[i]))
}

/// Compares text against a lower-case keyword, ignoring ASCII case.
fn eq_keyword(text: &str, word: &str) -> (r: bool)
    ensures
        r == matches_word(text@, word@),
{
    let n = text.unicode_len();
    if n != word.unicode_len() {
        return false;
    }
    let mut i: usize = 0;
    while i < n
        invariant
            0 <= i <= n,
            n == text@.len(),
            n == word@.len(),
            forall|k: int| 0 <= k < i ==> char_matches_folded(#[trigger] text@[k], word@[k]),
        decreases n - i,
    {
        let a = text.get_char(i);
        let b = word.get_char(i);
        let ua = a as u32;
        let ub = b as u32;
        if !(ua == ub || (65 <= ua && ua <= 90 && ua + 32 == ub)) {
            assert(!char_matches_folded(text@[i as int], word@[i as int]));
            return false;
        }
        i = i + 1;
    }
    true
}

impl BlockString {
    /// Converts text to a block designator, ignoring ASCII case.  Succeeds
    /// exactly on the three keywords; anything else is a conversion error.
    pub fn new(text: &str) -> (r: Result<BlockString, BlockStringError>)
        ensures
            match r {
                Ok(b) => (b == BlockString::Earliest <==> matches_word(text@, "earliest"@))
                    && (b == BlockString::Latest <==> matches_word(text@, "latest"@)) && (b
                    == BlockString::Pending <==> matches_word(text@, "pending"@)),
                Err(e) => !matches_word(text@, "earliest"@) && !matches_word(text@, "latest"@)
                    && !matches_word(text@, "pending"@) && e == BlockStringError::Convert,
            },
    {
        if eq_keyword(text, "earliest") {
            proof {
                reveal_strlit("earliest");
                reveal_strlit("latest");
                reveal_strlit("pending");
            }
            Ok(BlockString::Earliest)
        } else if eq_keyword(text, "latest") {
            proof {
                reveal_strlit("latest");
                reveal_strlit("pending");
            }
            Ok(BlockString::Latest)
        } else if eq_keyword(text, "pending") {
            Ok(BlockString::Pending)
        } else {
            Err(BlockStringError::Convert)
        }
    }

    /// The lower-case wire keyword for this designator.
    pub fn to_str(&self) -> (r: String)
        ensures
            self == BlockString::Earliest ==> r@ == "earliest"@,
            self == BlockString::Latest ==> r@ == "latest"@,
            self == BlockString::Pending ==> r@ == "pending"@,
    {
        match self {
            BlockString::Earliest => String::from_str("earliest"),
            BlockString::Latest => String::from_str("latest"),
            BlockString::Pending => String::from_str("pending"),
        }
    }
}

} // verus!
