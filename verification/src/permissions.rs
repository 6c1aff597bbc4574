//! Permissions at startup.
use crate::display::lower;
use crate::text::chars_of;
use vstd::prelude::*;

verus! {

/// The word occurs at the given place, in ASCII letters of either case.
pub open spec fn occurs_at(s: Seq<char>, word: Seq<char>, i: int) -> bool {
    &&& 0 <= i <= s.len() - word.len()
    &&& forall|j: int| 0 <= j < word.len() ==> lower(#[trigger] s[i + j]) == word[j]
}

/// The word occurs in the text, in ASCII letters of either case.
pub open spec fn mentions(s: Seq<char>, word: Seq<char>) -> bool {
    exists|i: int| occurs_at(s, word, i)
}

/// The message says that a permission is missing.
pub open spec fn says_denied(s: Seq<char>) -> bool {
    mentions(s, "denied"@) || mentions(s, "permission"@) || mentions(s, "not entitled"@)
}

fn to_lower(c: char) -> (r: char)
    ensures
        r == lower(c),
{
    match c {
        'A' => 'a',
        'B' => 'b',
        'C' => 'c',
        'D' => 'd',
        'E' => 'e',
        'F' => 'f',
        'G' => 'g',
        'H' => 'h',
        'I' => 'i',
        'J' => 'j',
        'K' => 'k',
        'L' => 'l',
        'M' => 'm',
        'N' => 'n',
        'O' => 'o',
        'P' => 'p',
        'Q' => 'q',
        'R' => 'r',
        'S' => 's',
        'T' => 't',
        'U' => 'u',
        'V' => 'v',
        'W' => 'w',
        'X' => 'x',
        'Y' => 'y',
        'Z' => 'z',
        _ => c,
    }
}

fn matches_at(s: &Vec<char>, word: &Vec<char>, i: usize) -> (r: bool)
    requires
        i + word@.len() <= s@.len(),
    ensures
        r == occurs_at(s@, word@, i as int),
{
    let len: usize = s.len();
    let mut j: usize = 0;
    while j < word.len()
        invariant
            j <= word@.len(),
            i + word@.len() <= s@.len(),
            len == s@.len(),
            forall|k: int| 0 <= k < j ==> lower(#[trigger] s@[i + k]) == word@[k],
        decreases word@.len() - j,
    {
        if to_lower(s[i + j]) != word[j] {
            proof {
                assert(lower(s@[i + j]) != word@[j as int]);
            }
            return false;
        }
        j += 1;
    }
    true
}

fn does_mention(s: &Vec<char>, word: &str) -> (r: bool)
    ensures
        r == mentions(s@, word@),
{
    let w: Vec<char> = chars_of(word);
    if w.len() > s.len() {
        return false;
    }
    let last: usize = s.len() - w.len();
    let mut i: usize = 0;
    loop
        invariant
            i <= last,
            w@ == word@,
            last + w@.len() == s@.len(),
            forall|k: int| 0 <= k < i ==> !occurs_at(s@, w@, k),
        decreases last - i,
    {
        if matches_at(s, &w, i) {
            assert(occurs_at(s@, word@, i as int));
            return true;
        }
        if i == last {
            return false;
        }
        i += 1;
    }
}

/// Whether screen recording is permitted, where querying the displays failed
/// with the given message, or did not fail. An error that is unrelated to the
/// permission does not tell.
pub fn check_screen_recording(error: Option<&str>) -> (granted: bool)
    ensures
        granted == !(error matches Some(message) && says_denied(message@)),
{
    match error {
        None => true,
        Some(message) => {
            let s: Vec<char> = chars_of(message);
            !(does_mention(&s, "denied") || does_mention(&s, "permission") || does_mention(
                &s,
                "not entitled",
            ))
        },
    }
}

/// A message tells of a missing permission exactly where one of the words
/// "denied", "permission" and "not entitled" stands somewhere in it, in letters
/// of either case.
pub proof fn law_denial_is_found(s: Seq<char>)
    ensures
        says_denied(s) <==> {
            ||| stands_in(s, seq!['d', 'e', 'n', 'i', 'e', 'd'])
            ||| stands_in(s, seq!['p', 'e', 'r', 'm', 'i', 's', 's', 'i', 'o', 'n'])
            ||| stands_in(s, seq!['n', 'o', 't', ' ', 'e', 'n', 't', 'i', 't', 'l', 'e', 'd'])
        },
{
    reveal_strlit("denied");
    reveal_strlit("permission");
    reveal_strlit("not entitled");
    assert("denied"@ =~= seq!['d', 'e', 'n', 'i', 'e', 'd']);
    assert("permission"@ =~= seq!['p', 'e', 'r', 'm', 'i', 's', 's', 'i', 'o', 'n']);
    assert("not entitled"@ =~= seq!['n', 'o', 't', ' ', 'e', 'n', 't', 'i', 't', 'l', 'e', 'd']);
    lemma_stands_in(s, "denied"@);
    lemma_stands_in(s, "permission"@);
    lemma_stands_in(s, "not entitled"@);
}

/// The text has the word somewhere, each letter either as it is or as its
/// capital.
pub open spec fn stands_in(s: Seq<char>, word: Seq<char>) -> bool {
    exists|i: int| stands_at(s, word, i)
}

proof fn lemma_stands_in(s: Seq<char>, word: Seq<char>)
    ensures
        stands_in(s, word) == mentions(s, word),
{
    if stands_in(s, word) {
        let i = choose|i: int| stands_at(s, word, i);
        lemma_stands_at(s, word, i);
        assert(occurs_at(s, word, i));
    }
    if mentions(s, word) {
        let i = choose|i: int| occurs_at(s, word, i);
        lemma_stands_at(s, word, i);
        assert(stands_at(s, word, i));
    }
}

/// The text has the word at the given place, each letter either as it is or as
/// its capital.
pub open spec fn stands_at(s: Seq<char>, word: Seq<char>, i: int) -> bool {
    &&& 0 <= i
    &&& i + word.len() <= s.len()
    &&& forall|j: int|
        0 <= j < word.len() ==> (#[trigger] word[j] == s[i + j] && !('A' <= word[j] <= 'Z')) || (
        'A' <= s[i + j] <= 'Z' && s[i + j] as int + 32 == word[j] as int)
}

proof fn lemma_stands_at(s: Seq<char>, word: Seq<char>, i: int)
    ensures
        stands_at(s, word, i) == occurs_at(s, word, i),
{
    if stands_at(s, word, i) {
        assert forall|j: int| 0 <= j < word.len() implies lower(#[trigger] s[i + j]) == word[j] by {
            assert(word[j] == word[j]);
        }
    }
    if occurs_at(s, word, i) {
        assert forall|j: int| 0 <= j < word.len() implies (#[trigger] word[j] == s[i + j] && !('A'
            <= word[j] <= 'Z')) || ('A' <= s[i + j] <= 'Z' && s[i + j] as int + 32
            == word[j] as int) by {
            assert(lower(s[i + j]) == word[j]);
        }
    }
}

} // verus!
