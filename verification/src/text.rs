//! Numbers as decimal text, and the text of the daemon's PID file.

use vstd::prelude::*;
use vstd::string::{StrSliceExecFns, StringExecFns};

verus! {

/// The largest process id that a PID file may hold.
pub const PID_LIMIT: u32 = 2147483647;

/// The character of a decimal digit.
pub open spec fn digit(d: nat) -> char {
    if d == 0 {
        '0'
    } else if d == 1 {
        '1'
    } else if d == 2 {
        '2'
    } else if d == 3 {
        '3'
    } else if d == 4 {
        '4'
    } else if d == 5 {
        '5'
    } else if d == 6 {
        '6'
    } else if d == 7 {
        '7'
    } else if d == 8 {
        '8'
    } else {
        '9'
    }
}

/// The digit that a character stands for, if it is a decimal digit.
pub open spec fn digit_value(c: char) -> Option<nat> {
    if c == '0' {
        Some(0)
    } else if c == '1' {
        Some(1)
    } else if c == '2' {
        Some(2)
    } else if c == '3' {
        Some(3)
    } else if c == '4' {
        Some(4)
    } else if c == '5' {
        Some(5)
    } else if c == '6' {
        Some(6)
    } else if c == '7' {
        Some(7)
    } else if c == '8' {
        Some(8)
    } else if c == '9' {
        Some(9)
    } else {
        None
    }
}

/// A number in decimal, without sign or leading zeros.
pub open spec fn decimal(n: nat) -> Seq<char>
    decreases n,
{
    if n < 10 {
        seq![digit(n)]
    } else {
        decimal(n / 10).push(digit(n % 10))
    }
}

/// Whether every character is a decimal digit.
pub open spec fn all_digits(s: Seq<char>) -> bool {
    forall|i: int| 0 <= i < s.len() ==> digit_value(#[trigger] s[i]) is Some
}

/// The number that a run of decimal digits stands for.
pub open spec fn number(s: Seq<char>) -> nat
    decreases s.len(),
{
    if s.len() == 0 {
        0
    } else {
        number(s.drop_last()) * 10 + match digit_value(s.last()) {
            Some(d) => d,
            None => 0,
        }
    }
}

/// Whether a character is white space, as Unicode defines it: the controls
/// from tab to carriage return, the space, and the spaces and separators
/// beyond ASCII.
pub open spec fn is_blank(c: char) -> bool {
    let u = c as u32;
    ||| 0x09 <= u <= 0x0d
    ||| u == 0x20
    ||| u == 0x85
    ||| u == 0xa0
    ||| u == 0x1680
    ||| 0x2000 <= u <= 0x200a
    ||| u == 0x2028
    ||| u == 0x2029
    ||| u == 0x202f
    ||| u == 0x205f
    ||| u == 0x3000
}

/// The text without the white space it starts with.
pub open spec fn strip_front(s: Seq<char>) -> Seq<char>
    decreases s.len(),
{
    if s.len() > 0 && is_blank(s.first()) {
        strip_front(s.drop_first())
    } else {
        s
    }
}

/// The text without the white space it ends with.
pub open spec fn strip_back(s: Seq<char>) -> Seq<char>
    decreases s.len(),
{
    if s.len() > 0 && is_blank(s.last()) {
        strip_back(s.drop_last())
    } else {
        s
    }
}

/// The text without the white space around it.
pub open spec fn trimmed(s: Seq<char>) -> Seq<char> {
    strip_back(strip_front(s))
}

/// The process id that the text of a PID file holds: decimal digits,
/// possibly with white space around them, that stand for a number up to
/// [`PID_LIMIT`].
pub open spec fn pid_in(text: Seq<char>) -> Option<u32> {
    let body = trimmed(text);
    if body.len() > 0 && all_digits(body) && number(body) <= PID_LIMIT {
        Some(number(body) as u32)
    } else {
        None
    }
}

/// The text of one decimal digit.
pub(crate) fn digit_text(d: u64) -> (text: &'static str)
    requires
        d < 10,
    ensures
        text@ == seq![digit(d as nat)],
{
    proof {
        reveal_strlit("0");
        reveal_strlit("1");
        reveal_strlit("2");
        reveal_strlit("3");
        reveal_strlit("4");
        reveal_strlit("5");
        reveal_strlit("6");
        reveal_strlit("7");
        reveal_strlit("8");
        reveal_strlit("9");
    }
    let text = if d == 0 {
        "0"
    } else if d == 1 {
        "1"
    } else if d == 2 {
        "2"
    } else if d == 3 {
        "3"
    } else if d == 4 {
        "4"
    } else if d == 5 {
        "5"
    } else if d == 6 {
        "6"
    } else if d == 7 {
        "7"
    } else if d == 8 {
        "8"
    } else {
        "9"
    };
    assert(text@ =~= seq![digit(d as nat)]);
    text
}

/// The digit that a character stands for, if it is a decimal digit.
fn digit_of(c: char) -> (d: Option<u64>)
    ensures
        match d {
            Some(v) => digit_value(c) == Some(v as nat) && v < 10,
            None => digit_value(c) is None,
        },
{
    if c == '0' {
        Some(0)
    } else if c == '1' {
        Some(1)
    } else if c == '2' {
        Some(2)
    } else if c == '3' {
        Some(3)
    } else if c == '4' {
        Some(4)
    } else if c == '5' {
        Some(5)
    } else if c == '6' {
        Some(6)
    } else if c == '7' {
        Some(7)
    } else if c == '8' {
        Some(8)
    } else if c == '9' {
        Some(9)
    } else {
        None
    }
}

/// Whether a character is white space.
fn blank(c: char) -> (b: bool)
    ensures
        b == is_blank(c),
{
    let u: u32 = c as u32;
    (0x09 <= u && u <= 0x0d) || u == 0x20 || u == 0x85 || u == 0xa0 || u == 0x1680 || (0x2000
        <= u && u <= 0x200a) || u == 0x2028 || u == 0x2029 || u == 0x202f || u == 0x205f || u
        == 0x3000
}

/// Writes a number in decimal.
pub fn to_decimal(n: u64) -> (text: String)
    ensures
        text@ == decimal(n as nat),
    decreases n,
{
    if n < 10 {
        String::from_str(digit_text(n))
    } else {
        let mut text = to_decimal(n / 10);
        text.append(digit_text(n % 10));
        text
    }
}

/// Where the text starts once the white space in front is passed over.
fn skip_front(text: &str, len: usize) -> (start: usize)
    requires
        len == text@.len(),
    ensures
        start <= len,
        strip_front(text@) == text@.skip(start as int),
{
    let mut i: usize = 0;
    assert(text@.skip(0) == text@);
    while i < len
        invariant
            i <= len,
            len == text@.len(),
            strip_front(text@) == strip_front(text@.skip(i as int)),
        decreases len - i,
    {
        if !blank(text.get_char(i)) {
            return i;
        }
        assert(text@.skip(i as int).drop_first() == text@.skip(i + 1));
        i += 1;
    }
    i
}

/// Where the text from `start` on ends once the white space at the back
/// is passed over.
fn skip_back(text: &str, start: usize, len: usize) -> (end: usize)
    requires
        start <= len,
        len == text@.len(),
    ensures
        start <= end <= len,
        strip_back(text@.skip(start as int)) == text@.subrange(start as int, end as int),
{
    let mut j: usize = len;
    assert(text@.skip(start as int) == text@.subrange(start as int, len as int));
    while j > start
        invariant
            start <= j <= len,
            len == text@.len(),
            strip_back(text@.skip(start as int)) == strip_back(
                text@.subrange(start as int, j as int),
            ),
        decreases j,
    {
        if !blank(text.get_char(j - 1)) {
            return j;
        }
        assert(text@.subrange(start as int, j as int).drop_last() == text@.subrange(
            start as int,
            j - 1,
        ));
        j -= 1;
    }
    j
}

/// The text without the white space around it.
pub fn trim(text: &str) -> (body: String)
    ensures
        body@ == trimmed(text@),
{
    let len = text.unicode_len();
    let start = skip_front(text, len);
    let end = skip_back(text, start, len);
    String::from_str(text.substring_char(start, end))
}

/// A number is at least what any front part of its digits stands for.
proof fn number_grows(s: Seq<char>, k: int)
    requires
        0 <= k <= s.len(),
    ensures
        number(s.take(k)) <= number(s),
    decreases s.len(),
{
    if k == s.len() {
        assert(s.take(k) == s);
    } else {
        number_grows(s.drop_last(), k);
        assert(s.drop_last().take(k) == s.take(k));
    }
}

/// Reads the process id out of the text of a PID file, if the text holds
/// one.
pub fn parse_pid(text: &str) -> (pid: Option<u32>)
    ensures
        pid == pid_in(text@),
{
    let len = text.unicode_len();
    let start = skip_front(text, len);
    let end = skip_back(text, start, len);
    let ghost body = text@.subrange(start as int, end as int);
    assert(body == trimmed(text@));
    if start == end {
        return None;
    }
    let mut value: u64 = 0;
    let mut i: usize = start;
    assert(body.take(0).len() == 0);
    while i < end
        invariant
            start <= i <= end <= len,
            len == text@.len(),
            body == text@.subrange(start as int, end as int),
            body == trimmed(text@),
            all_digits(body.take(i - start)),
            value == number(body.take(i - start)),
            value <= PID_LIMIT,
        decreases end - i,
    {
        let c = text.get_char(i);
        assert(body[i - start] == c);
        let ghost front = body.take(i - start + 1);
        assert(front.drop_last() == body.take(i - start));
        assert(front.last() == c);
        match digit_of(c) {
            Some(d) => {
                let next = value * 10 + d;
                if next > PID_LIMIT as u64 {
                    proof {
                        assert(number(front) == next);
                        number_grows(body, i - start + 1);
                    }
                    return None;
                }
                value = next;
            },
            None => {
                assert(!all_digits(body));
                return None;
            },
        }
        assert(number(front) == value);
        i += 1;
    }
    assert(body.take(end - start) == body);
    Some(value as u32)
}

/// Every digit of a number in decimal is a digit, there is at least one,
/// and together they stand for the number.
pub proof fn decimal_is_a_number(n: nat)
    ensures
        decimal(n).len() > 0,
        all_digits(decimal(n)),
        number(decimal(n)) == n,
    decreases n,
{
    assert(digit_value(digit(n % 10)) == Some(n % 10));
    assert(decimal(n).last() == digit(n % 10));
    if n < 10 {
        assert(decimal(n).drop_last().len() == 0);
        assert(number(decimal(n).drop_last()) == 0);
    } else {
        decimal_is_a_number(n / 10);
        assert(decimal(n).drop_last() == decimal(n / 10));
    }
}

/// A process id written in decimal is read back as itself.
pub proof fn pid_round_trip(pid: u32)
    requires
        pid <= PID_LIMIT,
    ensures
        pid_in(decimal(pid as nat)) == Some(pid),
{
    let text = decimal(pid as nat);
    decimal_is_a_number(pid as nat);
    assert(digit_value(text.first()) is Some);
    assert(digit_value(text.last()) is Some);
    assert(strip_front(text) == text);
    assert(strip_back(text) == text);
}

} // verus!
