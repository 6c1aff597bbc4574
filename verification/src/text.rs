//! Text as sequences of characters: white space, words, lines and decimal
//! numbers.
use vstd::prelude::*;
use vstd::utf8::{decode_utf8, valid_utf8};

verus! {

/// The character is Unicode white space.
pub open spec fn is_space(c: char) -> bool {
    ||| '\u{9}' <= c <= '\u{d}'
    ||| c == ' '
    ||| c == '\u{85}'
    ||| c == '\u{a0}'
    ||| c == '\u{1680}'
    ||| '\u{2000}' <= c <= '\u{200a}'
    ||| c == '\u{2028}'
    ||| c == '\u{2029}'
    ||| c == '\u{202f}'
    ||| c == '\u{205f}'
    ||| c == '\u{3000}'
}

/// The text without white space at its start.
pub open spec fn trim_start(s: Seq<char>) -> Seq<char>
    decreases s.len(),
{
    if s.len() > 0 && is_space(s[0]) {
        trim_start(s.drop_first())
    } else {
        s
    }
}

/// The text without white space at its end.
pub open spec fn trim_end(s: Seq<char>) -> Seq<char>
    decreases s.len(),
{
    if s.len() > 0 && is_space(s.last()) {
        trim_end(s.drop_last())
    } else {
        s
    }
}

/// The text without white space around it.
pub open spec fn trimmed(s: Seq<char>) -> Seq<char> {
    trim_end(trim_start(s))
}

/// The pieces with one character added to the last of them.
pub open spec fn extend_last(pieces: Seq<Seq<char>>, c: char) -> Seq<Seq<char>> {
    pieces.update(pieces.len() - 1, pieces.last().push(c))
}

/// The runs of characters between white space.
pub open spec fn words(s: Seq<char>) -> Seq<Seq<char>>
    decreases s.len(),
{
    if s.len() == 0 {
        seq![]
    } else if is_space(s.last()) {
        words(s.drop_last())
    } else if s.len() == 1 || is_space(s[s.len() - 2]) {
        words(s.drop_last()).push(seq![s.last()])
    } else {
        extend_last(words(s.drop_last()), s.last())
    }
}

/// The pieces between line feeds, empty ones too.
pub open spec fn lines(s: Seq<char>) -> Seq<Seq<char>>
    decreases s.len(),
{
    if s.len() == 0 {
        seq![seq![]]
    } else if s.last() == '\n' {
        lines(s.drop_last()).push(seq![])
    } else {
        extend_last(lines(s.drop_last()), s.last())
    }
}

/// The character is a decimal digit.
pub open spec fn is_digit(c: char) -> bool {
    '0' <= c <= '9'
}

/// The number that a run of digits stands for.
pub open spec fn digits_value(s: Seq<char>) -> nat
    decreases s.len(),
{
    if s.len() == 0 {
        0
    } else {
        digits_value(s.drop_last()) * 10 + (s.last() as int - '0' as int) as nat
    }
}

/// The digits of a text with an optional plus sign in front.
pub open spec fn without_plus(s: Seq<char>) -> Seq<char> {
    if s.len() > 0 && s[0] == '+' {
        s.drop_first()
    } else {
        s
    }
}

/// The number up to `limit` that a text holds: an optional plus sign and at
/// least one digit, nothing else.
pub open spec fn number(s: Seq<char>, limit: nat) -> Option<nat> {
    let d = without_plus(s);
    if d.len() > 0 && (forall|i: int| 0 <= i < d.len() ==> is_digit(#[trigger] d[i]))
        && digits_value(d) <= limit {
        Some(digits_value(d))
    } else {
        None
    }
}

/// The digit for a number below ten.
pub open spec fn digit(n: nat) -> char {
    ('0' as int + n) as char
}

/// A number in decimal.
pub open spec fn decimal(n: nat) -> Seq<char>
    decreases n,
{
    if n < 10 {
        seq![digit(n)]
    } else {
        decimal(n / 10).push(digit(n % 10))
    }
}

/// The characters of a text.
pub fn chars_of(s: &str) -> (chars: Vec<char>)
    ensures
        chars@ == s@,
{
    let mut chars: Vec<char> = Vec::new();
    for c in iter: s.chars()
        invariant
            chars@ == iter.seq().take(iter.index()),
            iter.seq() == s@,
    {
        chars.push(c);
    }
    chars
}

/// The text that bytes stand for when whatever is not UTF-8 is replaced.
pub uninterp spec fn lossy_text(bytes: Seq<u8>) -> Seq<char>;

/// `String::from_utf8_lossy`: the text is a function of the bytes, and bytes
/// that are valid UTF-8 are decoded as they are. How invalid bytes are replaced
/// is left to the name.
#[verifier::external_body]
pub(crate) fn decode_lossy(bytes: &[u8]) -> (s: String)
    ensures
        s@ == lossy_text(bytes@),
        valid_utf8(bytes@) ==> s@ == decode_utf8(bytes@),
{
    String::from_utf8_lossy(bytes).into_owned()
}

/// The characters of each of the texts.
pub open spec fn texts(v: Seq<String>) -> Seq<Seq<char>> {
    v.map_values(|s: String| s@)
}

/// The character is Unicode white space.
fn space(c: char) -> (r: bool)
    ensures
        r == is_space(c),
{
    ('\u{9}' <= c && c <= '\u{d}') || c == ' ' || c == '\u{85}' || c == '\u{a0}' || c == '\u{1680}'
        || ('\u{2000}' <= c && c <= '\u{200a}') || c == '\u{2028}' || c == '\u{2029}' || c
        == '\u{202f}' || c == '\u{205f}' || c == '\u{3000}'
}

/// Views of the pieces of a text.
pub open spec fn pieces(v: Seq<Vec<char>>) -> Seq<Seq<char>> {
    v.map_values(|p: Vec<char>| p@)
}

/// Appends a character to the last piece.
fn push_to_last(v: &mut Vec<Vec<char>>, c: char)
    requires
        old(v)@.len() > 0,
    ensures
        pieces(final(v)@) == extend_last(pieces(old(v)@), c),
{
    let ghost before = v@;
    match v.pop() {
        Some(mut last) => {
            last.push(c);
            v.push(last);
        },
        None => {},
    }
    proof {
        assert(pieces(v@) =~= extend_last(pieces(before), c));
    }
}

/// Splits a text at white space.
pub fn split_words(s: &Vec<char>) -> (r: Vec<Vec<char>>)
    ensures
        pieces(r@) == words(s@),
{
    let mut r: Vec<Vec<char>> = Vec::new();
    let mut inside: bool = false;
    let mut i: usize = 0;
    proof {
        assert(s@.take(0).len() == 0);
        assert(pieces(r@) =~= words(s@.take(0)));
    }
    while i < s.len()
        invariant
            i <= s@.len(),
            pieces(r@) == words(s@.take(i as int)),
            inside == (i > 0 && !is_space(s@[i - 1])),
            inside ==> r@.len() > 0,
        decreases s@.len() - i,
    {
        let c: char = s[i];
        let ghost t = s@.take(i + 1);
        proof {
            assert(t.drop_last() =~= s@.take(i as int));
            assert(t.last() == c);
            assert(i > 0 ==> t[t.len() - 2] == s@[i - 1]);
        }
        if space(c) {
            inside = false;
        } else if inside {
            push_to_last(&mut r, c);
        } else {
            let ghost before = r@;
            let mut word: Vec<char> = Vec::new();
            word.push(c);
            r.push(word);
            inside = true;
            proof {
                assert(word@ =~= seq![c]);
                assert(pieces(r@) =~= pieces(before).push(seq![c]));
            }
        }
        i += 1;
    }
    proof {
        assert(s@.take(s@.len() as int) =~= s@);
    }
    r
}

/// Splits a text at line feeds.
pub fn split_lines(s: &Vec<char>) -> (r: Vec<Vec<char>>)
    ensures
        pieces(r@) == lines(s@),
{
    let mut r: Vec<Vec<char>> = Vec::new();
    let first: Vec<char> = Vec::new();
    r.push(first);
    let mut i: usize = 0;
    proof {
        assert(s@.take(0).len() == 0);
        assert(pieces(r@) =~= lines(s@.take(0)));
    }
    while i < s.len()
        invariant
            i <= s@.len(),
            pieces(r@) == lines(s@.take(i as int)),
            r@.len() > 0,
        decreases s@.len() - i,
    {
        let c: char = s[i];
        let ghost t = s@.take(i + 1);
        proof {
            assert(t.drop_last() =~= s@.take(i as int));
            assert(t.last() == c);
        }
        if c == '\n' {
            let ghost before = r@;
            let empty: Vec<char> = Vec::new();
            r.push(empty);
            proof {
                assert(pieces(r@) =~= pieces(before).push(seq![]));
            }
        } else {
            let ghost before = r@;
            push_to_last(&mut r, c);
            proof {
                assert(pieces(r@).len() == pieces(before).len());
            }
        }
        i += 1;
    }
    proof {
        assert(s@.take(s@.len() as int) =~= s@);
    }
    r
}

/// Trimming at the end keeps a prefix.
proof fn lemma_trim_end_is(s: Seq<char>, n: int)
    requires
        0 <= n <= s.len(),
        n > 0 ==> !is_space(s[n - 1]),
        forall|i: int| n <= i < s.len() ==> is_space(#[trigger] s[i]),
    ensures
        trim_end(s) == s.take(n),
    decreases s.len() - n,
{
    if n < s.len() {
        lemma_trim_end_is(s.drop_last(), n);
        assert(s.drop_last().take(n) =~= s.take(n));
    } else {
        assert(s.take(n) =~= s);
    }
}

/// Trimming at the start keeps a suffix.
proof fn lemma_trim_start_is(s: Seq<char>, n: int)
    requires
        0 <= n <= s.len(),
        n < s.len() ==> !is_space(s[n]),
        forall|i: int| 0 <= i < n ==> is_space(#[trigger] s[i]),
    ensures
        trim_start(s) == s.skip(n),
    decreases n,
{
    if n > 0 {
        lemma_trim_start_is(s.drop_first(), n - 1);
        assert(s.drop_first().skip(n - 1) =~= s.skip(n));
    } else {
        assert(s.skip(0) =~= s);
    }
}

/// The text without white space around it.
pub fn trim(s: &Vec<char>) -> (r: Vec<char>)
    ensures
        r@ == trimmed(s@),
{
    let mut start: usize = 0;
    while start < s.len() && space(s[start])
        invariant
            start <= s@.len(),
            forall|i: int| 0 <= i < start ==> is_space(#[trigger] s@[i]),
        decreases s@.len() - start,
    {
        start += 1;
    }
    let mut end: usize = s.len();
    while start < end && space(s[end - 1])
        invariant
            start <= end <= s@.len(),
            forall|i: int| end <= i < s@.len() ==> is_space(#[trigger] s@[i]),
        decreases end,
    {
        end -= 1;
    }
    let mut r: Vec<char> = Vec::new();
    let mut i: usize = start;
    while i < end
        invariant
            start <= i <= end <= s@.len(),
            r@ == s@.subrange(start as int, i as int),
        decreases end - i,
    {
        r.push(s[i]);
        i += 1;
        proof {
            assert(r@ =~= s@.subrange(start as int, i as int));
        }
    }
    proof {
        lemma_trim_start_is(s@, start as int);
        let t = s@.skip(start as int);
        assert(end > start ==> t[end - start - 1] == s@[end - 1]);
        lemma_trim_end_is(t, end - start);
        assert(t.take(end - start) =~= s@.subrange(start as int, end as int));
    }
    r
}

/// Digits in front of a number only make it larger.
proof fn lemma_digits_value_grows(s: Seq<char>, n: int)
    requires
        0 <= n <= s.len(),
    ensures
        digits_value(s.take(n)) <= digits_value(s),
    decreases s.len() - n,
{
    if n < s.len() {
        lemma_digits_value_grows(s, n + 1);
        assert(s.take(n + 1).drop_last() =~= s.take(n));
    } else {
        assert(s.take(n) =~= s);
    }
}

/// The number up to `limit` that a text holds.
pub fn parse_number(s: &Vec<char>, limit: u64) -> (r: Option<u64>)
    ensures
        r matches Some(n) ==> number(s@, limit as nat) == Some(n as nat),
        r is None ==> number(s@, limit as nat) is None,
{
    let start: usize = if s.len() > 0 && s[0] == '+' {
        1
    } else {
        0
    };
    let ghost d = without_plus(s@);
    proof {
        assert(d =~= s@.skip(start as int));
        assert(d.take(0).len() == 0);
    }
    if s.len() == start {
        return None;
    }
    let mut value: u64 = 0;
    let mut i: usize = start;
    while i < s.len()
        invariant
            start <= i <= s@.len(),
            start < s@.len(),
            start <= 1,
            d == without_plus(s@),
            d == s@.skip(start as int),
            value == digits_value(d.take(i - start)),
            value <= limit,
            forall|j: int| 0 <= j < i - start ==> is_digit(#[trigger] d[j]),
        decreases s@.len() - i,
    {
        let c: char = s[i];
        assert(d[i - start] == c);
        if c < '0' || c > '9' {
            return None;
        }
        let n: u64 = (c as u32 - '0' as u32) as u64;
        proof {
            assert(d.take(i - start + 1).drop_last() =~= d.take(i - start));
            assert(d.take(i - start + 1).last() == c);
            lemma_digits_value_grows(d, i - start + 1);
        }
        if value > (u64::MAX - n) / 10 {
            return None;
        }
        value = value * 10 + n;
        if value > limit {
            return None;
        }
        i += 1;
    }
    proof {
        assert(d.take(d.len() as int) =~= d);
    }
    Some(value)
}

/// The text has the characters of the literal.
pub fn text_is(s: &Vec<char>, literal: &str) -> (r: bool)
    ensures
        r == (s@ == literal@),
{
    let other: Vec<char> = chars_of(literal);
    if s.len() != other.len() {
        return false;
    }
    let mut i: usize = 0;
    while i < s.len()
        invariant
            i <= s@.len(),
            s@.len() == other@.len(),
            other@ == literal@,
            forall|j: int| 0 <= j < i ==> s@[j] == other@[j],
        decreases s@.len() - i,
    {
        if s[i] != other[i] {
            return false;
        }
        i += 1;
    }
    assert(s@ =~= other@);
    true
}

/// The digit for a number below ten, as text.
fn digit_text(n: u64) -> (s: &'static str)
    requires
        n < 10,
    ensures
        s@ == seq![digit(n as nat)],
{
    proof {
        reveal_strlit("0");
        reveal_strlit("1");
        reveal_strlit("2");
        reveal_strlit("3");
        reveal_strlit("4");
        reveal_strlit("5");
        reveal_strlit("6");
        reveal_strlit("7");
        reveal_strlit("8");
        reveal_strlit("9");
    }
    if n == 0 {
        "0"
    } else if n == 1 {
        "1"
    } else if n == 2 {
        "2"
    } else if n == 3 {
        "3"
    } else if n == 4 {
        "4"
    } else if n == 5 {
        "5"
    } else if n == 6 {
        "6"
    } else if n == 7 {
        "7"
    } else if n == 8 {
        "8"
    } else {
        "9"
    }
}

/// A number in decimal.
pub fn to_decimal(n: u64) -> (s: String)
    ensures
        s@ == decimal(n as nat),
    decreases n,
{
    let mut s: String = if n < 10 {
        String::new()
    } else {
        to_decimal(n / 10)
    };
    s.append(digit_text(n % 10));
    proof {
        if n < 10 {
            assert(s@ =~= seq![digit(n as nat)]);
        } else {
            assert(s@ =~= decimal((n / 10) as nat).push(digit((n % 10) as nat)));
        }
    }
    s
}

/// The upper-case hexadecimal digit for a number below sixteen.
pub open spec fn hex_digit(n: nat) -> char {
    if n < 10 {
        digit(n)
    } else {
        ('A' as int + n - 10) as char
    }
}

/// A number in upper-case hexadecimal.
pub open spec fn hexadecimal(n: nat) -> Seq<char>
    decreases n,
{
    if n < 16 {
        seq![hex_digit(n)]
    } else {
        hexadecimal(n / 16).push(hex_digit(n % 16))
    }
}

/// A number in upper-case hexadecimal, with at least two digits.
pub open spec fn hex2(n: nat) -> Seq<char> {
    if n < 16 {
        seq!['0', hex_digit(n)]
    } else {
        hexadecimal(n)
    }
}

/// The upper-case hexadecimal digit for a number below sixteen, as text.
fn hex_digit_text(n: u16) -> (s: &'static str)
    requires
        n < 16,
    ensures
        s@ == seq![hex_digit(n as nat)],
{
    proof {
        reveal_strlit("A");
        reveal_strlit("B");
        reveal_strlit("C");
        reveal_strlit("D");
        reveal_strlit("E");
        reveal_strlit("F");
    }
    if n < 10 {
        digit_text(n as u64)
    } else if n == 10 {
        "A"
    } else if n == 11 {
        "B"
    } else if n == 12 {
        "C"
    } else if n == 13 {
        "D"
    } else if n == 14 {
        "E"
    } else {
        "F"
    }
}

fn to_hex(n: u16) -> (s: String)
    ensures
        s@ == hexadecimal(n as nat),
    decreases n,
{
    let mut s: String = if n < 16 {
        String::new()
    } else {
        to_hex(n / 16)
    };
    s.append(hex_digit_text(n % 16));
    proof {
        if n < 16 {
            assert(s@ =~= seq![hex_digit(n as nat)]);
        } else {
            assert(s@ =~= hexadecimal((n / 16) as nat).push(hex_digit((n % 16) as nat)));
        }
    }
    s
}

/// A number in upper-case hexadecimal, with at least two digits.
pub fn to_hex2(n: u16) -> (s: String)
    ensures
        s@ == hex2(n as nat),
{
    if n < 16 {
        let mut s: String = "0".to_string();
        s.append(to_hex(n).as_str());
        proof {
            reveal_strlit("0");
            assert(s@ =~= hex2(n as nat));
        }
        s
    } else {
        to_hex(n)
    }
}

/// A number in decimal is made of digits, and they stand for the number.
pub proof fn lemma_decimal(n: nat)
    ensures
        decimal(n).len() > 0,
        forall|i: int| 0 <= i < decimal(n).len() ==> is_digit(#[trigger] decimal(n)[i]),
        digits_value(decimal(n)) == n,
    decreases n,
{
    if n < 10 {
        assert(seq![digit(n)].drop_last().len() == 0);
        assert(digits_value(seq![digit(n)].drop_last()) == 0);
    } else {
        lemma_decimal(n / 10);
        let d = decimal(n / 10);
        assert(d.push(digit(n % 10)).drop_last() =~= d);
    }
}

/// What is written in decimal is read back.
pub proof fn law_number_reads_decimal(n: nat, limit: nat)
    requires
        n <= limit,
    ensures
        number(decimal(n), limit) == Some(n),
{
    lemma_decimal(n);
    assert(decimal(n)[0] != '+');
}

/// Text without white space is one word.
pub proof fn lemma_one_word(s: Seq<char>)
    requires
        s.len() > 0,
        forall|i: int| 0 <= i < s.len() ==> !is_space(#[trigger] s[i]),
    ensures
        words(s) == seq![s],
    decreases s.len(),
{
    let t = s.drop_last();
    if s.len() == 1 {
        assert(words(t) =~= seq![]);
        assert(seq![s.last()] =~= s);
        assert(words(s) =~= seq![s]);
    } else {
        lemma_one_word(t);
        assert(!is_space(s[s.len() - 2]));
        assert(t.push(s.last()) =~= s);
        assert(words(s) =~= seq![s]);
    }
}

/// White space separates words.
pub proof fn lemma_words_apart(a: Seq<char>, space: char, b: Seq<char>)
    requires
        is_space(space),
    ensures
        words(a.push(space) + b) == words(a) + words(b),
    decreases b.len(),
{
    let s = a.push(space) + b;
    if b.len() == 0 {
        assert(s =~= a.push(space));
        assert(s.drop_last() =~= a);
        assert(words(a) + words(b) =~= words(a));
    } else {
        let c = b.drop_last();
        lemma_words_apart(a, space, c);
        assert(s.drop_last() =~= a.push(space) + c);
        assert(s.last() == b.last());
        if is_space(b.last()) {
        } else if b.len() == 1 {
            assert(s[s.len() - 2] == space);
            assert(words(c).len() == 0);
            assert(words(s) =~= words(a) + words(b));
        } else {
            assert(s[s.len() - 2] == b[b.len() - 2]);
            if is_space(b[b.len() - 2]) {
                assert(words(s) =~= words(a) + words(b));
            } else {
                lemma_words_exist(c);
                assert(words(s) =~= words(a) + words(b));
            }
        }
    }
}

/// A text that does not end in white space has a word.
proof fn lemma_words_exist(s: Seq<char>)
    requires
        s.len() > 0,
        !is_space(s.last()),
    ensures
        words(s).len() > 0,
    decreases s.len(),
{
    if s.len() > 1 && !is_space(s[s.len() - 2]) {
        lemma_words_exist(s.drop_last());
    }
}

/// Text without line feeds is one line.
pub proof fn lemma_one_line(s: Seq<char>)
    requires
        forall|i: int| 0 <= i < s.len() ==> #[trigger] s[i] != '\n',
    ensures
        lines(s) == seq![s],
    decreases s.len(),
{
    if s.len() == 0 {
        assert(s =~= seq![]);
    } else {
        let t = s.drop_last();
        lemma_one_line(t);
        assert(t.push(s.last()) =~= s);
        assert(lines(s) =~= seq![s]);
    }
}

/// A line feed separates lines.
pub proof fn lemma_lines_apart(a: Seq<char>, b: Seq<char>)
    ensures
        lines(a.push('\n') + b) == lines(a) + lines(b),
        lines(b).len() > 0,
    decreases b.len(),
{
    let s = a.push('\n') + b;
    if b.len() == 0 {
        assert(s =~= a.push('\n'));
        assert(s.drop_last() =~= a);
        assert(lines(b) =~= seq![seq![]]);
        assert(lines(s) =~= lines(a) + lines(b));
    } else {
        let c = b.drop_last();
        lemma_lines_apart(a, c);
        assert(s.drop_last() =~= a.push('\n') + c);
        assert(s.last() == b.last());
        assert(lines(s) =~= lines(a) + lines(b));
    }
}

/// Text that neither starts nor ends in white space is not changed by trimming.
pub proof fn lemma_trimmed_same(s: Seq<char>)
    requires
        s.len() > 0,
        !is_space(s[0]),
        !is_space(s.last()),
    ensures
        trimmed(s) == s,
{
}

/// Trimming takes away white space at both ends and nothing else: what is left
/// stands in the text, has only white space around it, and neither starts nor ends
/// in white space.
pub proof fn law_trimming(s: Seq<char>)
    ensures
        ({
            let t = trimmed(s);
            &&& t.len() > 0 ==> !is_space(t[0]) && !is_space(t.last())
            &&& exists|i: int|
                0 <= i && i + t.len() <= s.len() && t == #[trigger] s.subrange(
                    i,
                    i + t.len(),
                ) && (forall|j: int| 0 <= j < i ==> is_space(#[trigger] s[j])) && (forall|j: int|
                    i + t.len() <= j < s.len() ==> is_space(#[trigger] s[j]))
        }),
{
    let a = trim_start(s);
    let t = trim_end(a);
    lemma_trim_start_parts(s);
    lemma_trim_end_parts(a);
    let i = s.len() - a.len();
    assert(t =~= s.subrange(i, i + t.len())) by {
        assert forall|j: int| 0 <= j < t.len() implies #[trigger] t[j] == s[i + j] by {
            assert(t[j] == a[j]);
            assert(a[j] == s[i + j]);
        }
    }
    assert forall|j: int| i + t.len() <= j < s.len() implies is_space(#[trigger] s[j]) by {
        assert(a[j - i] == s[j]);
    }
    assert(t.len() > 0 ==> t[0] == a[0]);
    assert(t == s.subrange(i, i + t.len()));
}

proof fn lemma_trim_start_parts(s: Seq<char>)
    ensures
        ({
            let t = trim_start(s);
            &&& t.len() <= s.len()
            &&& forall|j: int| 0 <= j < t.len() ==> #[trigger] t[j] == s[s.len() - t.len() + j]
            &&& forall|j: int| 0 <= j < s.len() - t.len() ==> is_space(#[trigger] s[j])
            &&& t.len() > 0 ==> !is_space(t[0])
        }),
    decreases s.len(),
{
    if s.len() > 0 && is_space(s[0]) {
        let r = s.drop_first();
        lemma_trim_start_parts(r);
        let t = trim_start(s);
        assert forall|j: int| 0 <= j < s.len() - t.len() implies is_space(#[trigger] s[j]) by {
            if j > 0 {
                assert(r[j - 1] == s[j]);
            }
        }
    }
}

proof fn lemma_trim_end_parts(s: Seq<char>)
    ensures
        ({
            let t = trim_end(s);
            &&& t.len() <= s.len()
            &&& forall|j: int| 0 <= j < t.len() ==> #[trigger] t[j] == s[j]
            &&& forall|j: int| t.len() <= j < s.len() ==> is_space(#[trigger] s[j])
            &&& t.len() > 0 ==> !is_space(t.last())
        }),
    decreases s.len(),
{
    if s.len() > 0 && is_space(s.last()) {
        let r = s.drop_last();
        lemma_trim_end_parts(r);
        let t = trim_end(s);
        assert forall|j: int| t.len() <= j < s.len() implies is_space(#[trigger] s[j]) by {
            if j < s.len() - 1 {
                assert(r[j] == s[j]);
            }
        }
    }
}

/// A text is read as a number exactly where, after at most one plus sign, it is
/// made of digits only, at least one, and does not stand for more than the limit.
/// The limit does not change what is read. A plus sign or a zero in front does not
/// count; another digit behind makes it ten times as much and that digit.
pub proof fn law_number(s: Seq<char>, limit: nat, larger: nat, c: char)
    requires
        limit <= larger,
    ensures
        number(s, limit) matches Some(n) ==> n <= limit && number(s, larger) == Some(n),
        number(s, larger) matches Some(n) ==> (n <= limit ==> number(s, limit) == Some(n)),
        s.len() == 0 ==> number(s, limit) is None,
        !('0' <= c <= '9') ==> number(seq![c], limit) is None && number(s.push(c), limit) is None,
        s.len() > 0 && s[0] != '+' ==> number(seq!['+'] + s, limit) == number(s, limit),
        number(seq!['+', '+'] + s, limit) is None,
        s.len() > 0 && s[0] != '+' ==> number(seq!['0'] + s, limit) == number(s, limit),
        (exists|i: int| 0 < i < s.len() && !is_digit(#[trigger] s[i])) ==> number(s, limit) is None,
        number(s, larger) matches Some(n) ==> ('0' <= c <= '9' && 10 * n + (c as int - '0' as int)
            <= limit ==> number(s.push(c), limit) == Some(
            (10 * n + (c as int - '0' as int)) as nat,
        )),
        '0' <= c <= '9' && c as int - '0' as int <= limit ==> number(seq![c], limit) == Some(
            (c as int - '0' as int) as nat,
        ),
{
    let d = without_plus(s);
    if !('0' <= c <= '9') {
        let more = s.push(c);
        let one = seq![c];
        assert(one[0] == c);
        if s.len() > 0 {
            if s[0] == '+' {
                assert(more.drop_first().last() == c);
            } else {
                assert(more[s.len() as int] == c);
            }
        } else {
            assert(more =~= one);
        }
        assert(one.drop_first().len() == 0);
    }
    if s.len() > 0 && s[0] != '+' {
        assert((seq!['+'] + s).drop_first() =~= s);
        let z = seq!['0'] + s;
        assert(without_plus(z) == z);
        lemma_leading_zero(s);
        if forall|i: int| 0 <= i < s.len() ==> is_digit(#[trigger] s[i]) {
            assert forall|i: int| 0 <= i < z.len() implies is_digit(#[trigger] z[i]) by {
                if i > 0 {
                    assert(z[i] == s[i - 1]);
                }
            }
        } else {
            let i = choose|i: int| 0 <= i < s.len() && !is_digit(#[trigger] s[i]);
            assert(z[i + 1] == s[i]);
        }
    }
    let twice = seq!['+', '+'] + s;
    assert(twice.drop_first()[0] == '+');
    if exists|i: int| 0 < i < s.len() && !is_digit(#[trigger] s[i]) {
        let i = choose|i: int| 0 < i < s.len() && !is_digit(#[trigger] s[i]);
        if s[0] == '+' {
            assert(d[i - 1] == s[i]);
        }
    }
    if '0' <= c <= '9' {
        let one = seq![c];
        assert(one.drop_last().len() == 0);
        assert(digits_value(one.drop_last()) == 0);
        if number(s, larger) is Some {
            let e = d.push(c);
            assert(without_plus(s.push(c)) =~= e);
            assert(e.drop_last() =~= d);
            assert forall|i: int| 0 <= i < e.len() implies is_digit(#[trigger] e[i]) by {
                if i < d.len() {
                    assert(e[i] == d[i]);
                }
            }
        }
    }
}

proof fn lemma_leading_zero(s: Seq<char>)
    ensures
        digits_value(seq!['0'] + s) == digits_value(s),
    decreases s.len(),
{
    let z = seq!['0'] + s;
    if s.len() == 0 {
        assert(z.drop_last().len() == 0);
        assert(digits_value(z.drop_last()) == 0);
    } else {
        assert(z.drop_last() =~= seq!['0'] + s.drop_last());
        lemma_leading_zero(s.drop_last());
    }
}

/// A number in decimal has no zero in front, unless it is zero.
pub proof fn law_decimal_has_no_leading_zero(n: nat)
    ensures
        decimal(n).len() > 0,
        decimal(n)[0] == '0' <==> n == 0,
    decreases n,
{
    if n >= 10 {
        law_decimal_has_no_leading_zero(n / 10);
        assert(decimal(n)[0] == decimal(n / 10)[0]);
    }
}

/// A number below 256 in hexadecimal has two digits, the higher one first; each
/// tells its value, from 0 to 9 and from A to F.
pub proof fn law_two_hexadecimal_digits(n: nat)
    requires
        n < 256,
    ensures
        hex2(n).len() == 2,
        hex_value(hex2(n)[0]) * 16 + hex_value(hex2(n)[1]) == n,
        forall|i: int|
            0 <= i < 2 ==> {
                ||| '0' <= #[trigger] hex2(n)[i] <= '9'
                ||| 'A' <= hex2(n)[i] <= 'F'
            },
{
    reveal_with_fuel(hexadecimal, 2);
    if n >= 16 {
        assert(hexadecimal(n / 16) == seq![hex_digit(n / 16)]);
        assert(hex2(n) =~= seq![hex_digit(n / 16), hex_digit(n % 16)]);
    }
}

/// The value of an upper-case hexadecimal digit.
pub open spec fn hex_value(c: char) -> int {
    if c <= '9' {
        c as int - '0' as int
    } else {
        c as int - 'A' as int + 10
    }
}

/// Larger numbers are written with the digits of what is left of the last one,
/// and that one.
pub proof fn law_hexadecimal_grows(n: nat)
    requires
        n >= 256,
    ensures
        hex2(n).len() == hex2(n / 16).len() + 1,
        hex2(n).drop_last() == hex2(n / 16),
        hex_value(hex2(n).last()) == n % 16,
{
    assert(hex2(n).drop_last() =~= hexadecimal(n / 16));
}

/// White space are the blank, the tabulator, the line ends and the wider spaces
/// of Unicode; letters, digits and signs are not.
pub proof fn law_white_space(c: char)
    ensures
        c < '\u{80}' ==> (is_space(c) <==> c == ' ' || c == '\t' || c == '\n' || c == '\u{b}' || c
            == '\u{c}' || c == '\r'),
        c > '\u{3000}' ==> !is_space(c),
{
}

} // verus!
