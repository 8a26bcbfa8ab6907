//! Text as sequences of characters: comparing, cutting and trimming it, and
//! writing and reading whole numbers in decimal.

use vstd::prelude::*;
use vstd::string::StrSliceExecFns;
use vstd::string::StringExecFns;

verus! {

/// The texts that a list of strings holds.
pub open spec fn texts(strings: Seq<String>) -> Seq<Seq<char>> {
    Seq::new(strings.len(), |i: int| strings[i]@)
}

/// Whether two texts are the same.
pub fn same(a: &str, b: &str) -> (result: bool)
    ensures
        result == (a@ == b@),
{
    a.to_owned() == b.to_owned()
}

/// The characters of a text, one by one.
pub fn characters(text: &str) -> (chars: Vec<char>)
    ensures
        chars@ == text@,
{
    let mut chars: Vec<char> = Vec::new();
    for c in it: text.chars()
        invariant
            it.seq() == text@,
            chars@ == text@.take(it.index() as int),
    {
        chars.push(c);
    }
    assert(text@.take(text@.len() as int) == text@);
    chars
}

// ---------------------------------------------------------------------------------------
// White space
// ---------------------------------------------------------------------------------------

/// The characters with Unicode's `White_Space` property.
pub open spec fn white_space(c: char) -> bool {
    let n = c as u32;
    ||| 0x09 <= n <= 0x0d
    ||| n == 0x20
    ||| n == 0x85
    ||| n == 0xa0
    ||| n == 0x1680
    ||| 0x2000 <= n <= 0x200a
    ||| n == 0x2028
    ||| n == 0x2029
    ||| n == 0x202f
    ||| n == 0x205f
    ||| n == 0x3000
}

/// Whether a character is white space.
pub fn is_white_space(c: char) -> (result: bool)
    ensures
        result == white_space(c),
{
    let n: u32 = c as u32;
    (0x09 <= n && n <= 0x0d) || n == 0x20 || n == 0x85 || n == 0xa0 || n == 0x1680 || (0x2000 <= n
        && n <= 0x200a) || n == 0x2028 || n == 0x2029 || n == 0x202f || n == 0x205f || n == 0x3000
}

/// A text without the white space at its start.
pub open spec fn trimmed_start(s: Seq<char>) -> Seq<char>
    decreases s.len(),
{
    if s.len() > 0 && white_space(s[0]) {
        trimmed_start(s.drop_first())
    } else {
        s
    }
}

/// A text without the white space at its end.
pub open spec fn trimmed_end(s: Seq<char>) -> Seq<char>
    decreases s.len(),
{
    if s.len() > 0 && white_space(s.last()) {
        trimmed_end(s.drop_last())
    } else {
        s
    }
}

/// A text without the white space around it.
pub open spec fn trimmed(s: Seq<char>) -> Seq<char> {
    trimmed_end(trimmed_start(s))
}

/// Cuts the white space off both ends of a text.
pub fn trim(text: &str) -> (result: String)
    ensures
        result@ == trimmed(text@),
{
    let chars = characters(text);
    let mut start: usize = 0;
    assert(text@.subrange(0, text@.len() as int) == text@);
    while start < chars.len() && is_white_space(chars[start])
        invariant
            start <= chars.len(),
            chars@ == text@,
            trimmed_start(text@) == trimmed_start(text@.subrange(start as int, text@.len() as int)),
        decreases chars.len() - start,
    {
        assert(text@.subrange(start as int, text@.len() as int).drop_first() == text@.subrange(
            start + 1,
            text@.len() as int,
        ));
        start = start + 1;
    }
    let mut end: usize = chars.len();
    while start < end && is_white_space(chars[end - 1])
        invariant
            start <= end <= chars.len(),
            chars@ == text@,
            trimmed(text@) == trimmed_end(text@.subrange(start as int, end as int)),
        decreases end,
    {
        assert(text@.subrange(start as int, end as int).drop_last() == text@.subrange(
            start as int,
            end - 1,
        ));
        end = end - 1;
    }
    text.substring_char(start, end).to_owned()
}

/// A text without the given character repeated at its start.
pub open spec fn stripped(s: Seq<char>, c: char) -> Seq<char>
    decreases s.len(),
{
    if s.len() > 0 && s[0] == c {
        stripped(s.drop_first(), c)
    } else {
        s
    }
}

/// Cuts every leading occurrence of a character off a text.
pub fn strip(text: &str, c: char) -> (result: String)
    ensures
        result@ == stripped(text@, c),
{
    let chars = characters(text);
    let mut start: usize = 0;
    assert(text@.subrange(0, text@.len() as int) == text@);
    while start < chars.len() && chars[start] == c
        invariant
            start <= chars.len(),
            chars@ == text@,
            stripped(text@, c) == stripped(text@.subrange(start as int, text@.len() as int), c),
        decreases chars.len() - start,
    {
        assert(text@.subrange(start as int, text@.len() as int).drop_first() == text@.subrange(
            start + 1,
            text@.len() as int,
        ));
        start = start + 1;
    }
    text.substring_char(start, chars.len()).to_owned()
}

// ---------------------------------------------------------------------------------------
// Cutting a text at separators
// ---------------------------------------------------------------------------------------

/// The pieces between the separators `a` and `b` of a text, empty pieces among them.
pub open spec fn pieces(s: Seq<char>, a: char, b: char) -> Seq<Seq<char>>
    decreases s.len(),
{
    if s.len() == 0 {
        seq![Seq::empty()]
    } else {
        let front = pieces(s.drop_last(), a, b);
        if s.last() == a || s.last() == b {
            front.push(Seq::empty())
        } else {
            front.drop_last().push(front.last().push(s.last()))
        }
    }
}

/// Cuts a text at every `a` and every `b`.
pub fn split(text: &str, a: char, b: char) -> (result: Vec<String>)
    ensures
        texts(result@) == pieces(text@, a, b),
{
    let chars = characters(text);
    let mut result: Vec<String> = Vec::new();
    let mut start: usize = 0;
    let mut i: usize = 0;
    assert(text@.subrange(0, 0) == Seq::<char>::empty());
    assert(texts(result@).push(text@.subrange(0, 0)) == seq![Seq::<char>::empty()]);
    while i < chars.len()
        invariant
            start <= i <= chars.len(),
            chars@ == text@,
            texts(result@).push(text@.subrange(start as int, i as int)) == pieces(
                text@.take(i as int),
                a,
                b,
            ),
        decreases chars.len() - i,
    {
        let ghost before = texts(result@);
        let ghost piece = text@.subrange(start as int, i as int);
        let c = chars[i];
        assert(text@.take(i + 1).drop_last() == text@.take(i as int));
        assert(before.push(piece).drop_last() == before);
        if c == a || c == b {
            result.push(text.substring_char(start, i).to_owned());
            start = i + 1;
            assert(texts(result@) == before.push(piece));
            assert(text@.subrange(start as int, i + 1) == Seq::<char>::empty());
        } else {
            assert(text@.subrange(start as int, i + 1) == piece.push(c));
        }
        i = i + 1;
    }
    let ghost before = texts(result@);
    result.push(text.substring_char(start, i).to_owned());
    assert(texts(result@) == before.push(text@.subrange(start as int, i as int)));
    assert(text@.take(i as int) == text@);
    result
}

// ---------------------------------------------------------------------------------------
// Whole numbers in decimal
// ---------------------------------------------------------------------------------------

/// The decimal digit for a number below ten.
pub open spec fn digit(n: int) -> char {
    (0x30 + n) as char
}

/// A natural number in decimal.
pub open spec fn decimal(n: nat) -> Seq<char>
    decreases n,
{
    if n < 10 {
        seq![digit(n as int)]
    } else {
        decimal(n / 10).push(digit((n % 10) as int))
    }
}

/// An integer in decimal, with a minus sign if it is negative.
pub open spec fn signed_decimal(n: int) -> Seq<char> {
    if n < 0 {
        seq!['-'] + decimal((-n) as nat)
    } else {
        decimal(n as nat)
    }
}

/// A natural number in decimal, with at least two digits.
pub open spec fn two_digits(n: nat) -> Seq<char> {
    if n < 10 {
        seq!['0'] + decimal(n)
    } else {
        decimal(n)
    }
}

fn digit_text(n: u64) -> (result: &'static str)
    requires
        n < 10,
    ensures
        result@ == seq![digit(n as int)],
{
    proof {
        reveal_strlit("0");
        reveal_strlit("1");
        reveal_strlit("2");
        reveal_strlit("3");
        reveal_strlit("4");
        reveal_strlit("5");
        reveal_strlit("6");
        reveal_strlit("7");
        reveal_strlit("8");
        reveal_strlit("9");
    }
    if n == 0 {
        "0"
    } else if n == 1 {
        "1"
    } else if n == 2 {
        "2"
    } else if n == 3 {
        "3"
    } else if n == 4 {
        "4"
    } else if n == 5 {
        "5"
    } else if n == 6 {
        "6"
    } else if n == 7 {
        "7"
    } else if n == 8 {
        "8"
    } else {
        "9"
    }
}

/// Writes a natural number in decimal.
pub fn write_decimal(n: u64) -> (result: String)
    ensures
        result@ == decimal(n as nat),
    decreases n,
{
    if n < 10 {
        digit_text(n).to_owned()
    } else {
        let mut result = write_decimal(n / 10);
        let ghost before = result@;
        result.append(digit_text(n % 10));
        assert(result@ == before.push(digit((n % 10) as int)));
        result
    }
}

/// Writes an integer in decimal.
pub fn write_signed(n: i64) -> (result: String)
    ensures
        result@ == signed_decimal(n as int),
{
    if n < 0 {
        proof {
            reveal_strlit("-");
        }
        let magnitude: u64 = (0 - (n as i128)) as u64;
        let mut result = "-".to_owned();
        result.append(write_decimal(magnitude).as_str());
        assert("-"@ == seq!['-']);
        result
    } else {
        write_decimal(n as u64)
    }
}

/// Writes a natural number in decimal with at least two digits.
pub fn write_two_digits(n: u64) -> (result: String)
    ensures
        result@ == two_digits(n as nat),
{
    if n < 10 {
        proof {
            reveal_strlit("0");
        }
        let mut result = "0".to_owned();
        result.append(write_decimal(n).as_str());
        assert("0"@ == seq!['0']);
        result
    } else {
        write_decimal(n)
    }
}

/// Whether a character is a decimal digit.
pub open spec fn is_digit(c: char) -> bool {
    0x30 <= c as u32 <= 0x39
}

/// Whether a text is one decimal digit or more.
pub open spec fn all_digits(s: Seq<char>) -> bool {
    &&& s.len() > 0
    &&& forall|i: int| 0 <= i < s.len() ==> is_digit(#[trigger] s[i])
}

/// The number that a run of decimal digits stands for.
pub open spec fn digits_value(s: Seq<char>) -> nat
    decreases s.len(),
{
    if s.len() == 0 {
        0
    } else {
        digits_value(s.drop_last()) * 10 + (s.last() as u32 - 0x30) as nat
    }
}

/// The integer that a text stands for: an optional sign, then digits and nothing else.
pub open spec fn integer(s: Seq<char>) -> Option<int> {
    if s.len() > 0 && (s[0] == '-' || s[0] == '+') {
        if !all_digits(s.drop_first()) {
            None
        } else if s[0] == '-' {
            Some(-(digits_value(s.drop_first()) as int))
        } else {
            Some(digits_value(s.drop_first()) as int)
        }
    } else if all_digits(s) {
        Some(digits_value(s) as int)
    } else {
        None
    }
}

/// The 64-bit integer that a text stands for, if it stands for one.
pub open spec fn integer_i64(s: Seq<char>) -> Option<i64> {
    match integer(s) {
        Some(n) => if i64::MIN <= n <= i64::MAX {
            Some(n as i64)
        } else {
            None
        },
        None => None,
    }
}

/// Reads the digits of `chars` from `start` on; a value of more than 2^64 reads as 2^64.
fn read_digits(chars: &Vec<char>, start: usize) -> (result: Option<u128>)
    requires
        start <= chars.len(),
    ensures
        ({
            let s = chars@.subrange(start as int, chars@.len() as int);
            match result {
                Some(n) => all_digits(s) && n == if digits_value(s) <= 0x1_0000_0000_0000_0000 {
                    digits_value(s)
                } else {
                    0x1_0000_0000_0000_0000
                },
                None => !all_digits(s),
            }
        }),
{
    let ghost s = chars@.subrange(start as int, chars@.len() as int);
    if start == chars.len() {
        return None;
    }
    let mut value: u128 = 0;
    let mut i: usize = start;
    while i < chars.len()
        invariant
            start <= i <= chars.len(),
            s == chars@.subrange(start as int, chars@.len() as int),
            forall|k: int| 0 <= k < i - start ==> is_digit(#[trigger] s[k]),
            value <= 0x1_0000_0000_0000_0000,
            value == digits_value(s.take(i - start)) || (value == 0x1_0000_0000_0000_0000
                && digits_value(s.take(i - start)) > 0x1_0000_0000_0000_0000),
        decreases chars.len() - i,
    {
        let n: u32 = chars[i] as u32;
        assert(s[i - start] == chars@[i as int]);
        if n < 0x30 || n > 0x39 {
            assert(!is_digit(s[i - start]));
            return None;
        }
        assert(s.take(i + 1 - start).drop_last() == s.take(i - start));
        assert(s.take(i + 1 - start).last() == chars@[i as int]);
        value = value * 10 + (n - 0x30) as u128;
        if value > 0x1_0000_0000_0000_0000 {
            value = 0x1_0000_0000_0000_0000;
        }
        i = i + 1;
    }
    assert(s.take(i - start) == s);
    Some(value)
}

/// Reads a signed 64-bit integer: an optional sign, then digits and nothing else.
pub fn read_i64(text: &str) -> (result: Option<i64>)
    ensures
        result == integer_i64(text@),
{
    let chars = characters(text);
    let negative = chars.len() > 0 && chars[0] == '-';
    let plus = chars.len() > 0 && chars[0] == '+';
    let start: usize = if negative || plus {
        1
    } else {
        0
    };
    proof {
        if start == 1 {
            assert(chars@.subrange(1, chars@.len() as int) == text@.drop_first());
        } else {
            assert(chars@.subrange(0, chars@.len() as int) == text@);
        }
    }
    match read_digits(&chars, start) {
        None => None,
        Some(n) => if negative {
            if n <= 0x8000_0000_0000_0000 {
                Some((0 - (n as i128)) as i64)
            } else {
                None
            }
        } else if n <= 0x7fff_ffff_ffff_ffff {
            Some(n as i64)
        } else {
            None
        },
    }
}

/// The position in a list that a text names: digits without a leading zero or a sign.
pub open spec fn position(s: Seq<char>) -> Option<nat> {
    if all_digits(s) && (s[0] != '0' || s.len() == 1) {
        Some(digits_value(s))
    } else {
        None
    }
}

/// Reads the position in a list of `len` items that a text names.
pub fn read_position(text: &str, len: usize) -> (result: Option<usize>)
    ensures
        result == (match position(text@) {
            Some(n) => if n < len {
                Some(n as usize)
            } else {
                None
            },
            None => None,
        }),
{
    let chars = characters(text);
    assert(chars@.subrange(0, chars@.len() as int) == text@);
    match read_digits(&chars, 0) {
        None => None,
        Some(n) => if chars[0] == '0' && chars.len() != 1 {
            None
        } else if n < len as u128 {
            Some(n as usize)
        } else {
            None
        },
    }
}

// ---------------------------------------------------------------------------------------
// Laws
// ---------------------------------------------------------------------------------------

/// A natural number reads back from its digits.
pub proof fn law_decimals_read_back(n: nat)
    ensures
        all_digits(decimal(n)),
        digits_value(decimal(n)) == n,
    decreases n,
{
    if n >= 10 {
        law_decimals_read_back(n / 10);
        assert(decimal(n).drop_last() == decimal(n / 10));
        assert(decimal(n).last() == digit((n % 10) as int));
    } else {
        reveal_with_fuel(digits_value, 2);
        assert(decimal(n).drop_last() == Seq::<char>::empty());
        assert(decimal(n).last() == digit(n as int));
    }
}

/// An integer reads back from its text.
pub proof fn law_integers_read_back(n: int)
    ensures
        integer(signed_decimal(n)) == Some(n),
{
    if n < 0 {
        law_decimals_read_back((-n) as nat);
        assert(signed_decimal(n).drop_first() == decimal((-n) as nat));
    } else {
        law_decimals_read_back(n as nat);
        assert(is_digit(decimal(n as nat)[0]));
    }
}

/// A number below a hundred is written with exactly two digits where two are asked for.
pub proof fn law_two_digits(n: nat)
    requires
        n < 100,
    ensures
        two_digits(n).len() == 2,
        all_digits(two_digits(n)),
        digits_value(two_digits(n)) == n,
{
    law_two_digits_read_back(n);
    reveal_with_fuel(decimal, 3);
}

/// A number written with at least two digits has them, and reads back.
pub proof fn law_two_digits_read_back(n: nat)
    ensures
        two_digits(n).len() >= 2,
        all_digits(two_digits(n)),
        digits_value(two_digits(n)) == n,
{
    law_decimals_read_back(n);
    law_decimals_read_back(n / 10);
    if n < 10 {
        reveal_with_fuel(digits_value, 3);
        assert(two_digits(n).drop_last() == seq!['0']);
        assert(two_digits(n).drop_last().drop_last() == Seq::<char>::empty());
    }
}

/// There is always at least one piece.
pub proof fn law_pieces_are_some(s: Seq<char>, a: char, b: char)
    ensures
        pieces(s, a, b).len() > 0,
    decreases s.len(),
{
    if s.len() > 0 {
        law_pieces_are_some(s.drop_last(), a, b);
    }
}

/// A text without separators is one piece.
pub proof fn law_one_piece(s: Seq<char>, a: char, b: char)
    requires
        !s.contains(a),
        !s.contains(b),
    ensures
        pieces(s, a, b) == seq![s],
    decreases s.len(),
{
    if s.len() > 0 {
        let front = s.drop_last();
        assert forall|c: char| front.contains(c) implies s.contains(c) by {
            let i = choose|i: int| 0 <= i < front.len() && front[i] == c;
            assert(s[i] == c);
        }
        law_one_piece(front, a, b);
        assert(s.last() == s[s.len() - 1]);
        assert(s.contains(s.last()));
        assert(front.push(s.last()) == s);
        assert(seq![front].drop_last().push(s) == seq![s]);
    } else {
        assert(s == Seq::<char>::empty());
    }
}

/// Cutting a text at one of its separators and each half on its own comes to cutting the
/// whole.
pub proof fn law_pieces_add_up(left: Seq<char>, separator: char, right: Seq<char>, a: char, b: char)
    requires
        separator == a || separator == b,
    ensures
        pieces(left.push(separator) + right, a, b) == pieces(left, a, b) + pieces(right, a, b),
    decreases right.len(),
{
    let whole = left.push(separator) + right;
    if right.len() == 0 {
        assert(whole == left.push(separator));
        assert(left.push(separator).drop_last() == left);
        assert(pieces(left, a, b).push(Seq::empty()) == pieces(left, a, b) + seq![
            Seq::<char>::empty(),
        ]);
    } else {
        let front = pieces(right.drop_last(), a, b);
        law_pieces_add_up(left, separator, right.drop_last(), a, b);
        law_pieces_are_some(right.drop_last(), a, b);
        assert(whole.drop_last() == left.push(separator) + right.drop_last());
        let c = right.last();
        if c == a || c == b {
            assert((pieces(left, a, b) + front).push(Seq::empty()) == pieces(left, a, b)
                + front.push(Seq::empty()));
        } else {
            assert((pieces(left, a, b) + front).drop_last().push(front.last().push(c)) == pieces(
                left,
                a,
                b,
            ) + front.drop_last().push(front.last().push(c)));
        }
    }
}

} // verus!
