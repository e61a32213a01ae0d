//! Channel keys: the marker that a key of a switch starts with, the channel
//! number behind it, and that number as decimal text.

use vstd::prelude::*;
use vstd::string::StrSliceExecFns;
use vstd::string::StringExecFns;

verus! {

/// The characters `switch:`, with which the key of every channel starts.
pub open spec fn marker() -> Seq<char> {
    seq!['s', 'w', 'i', 't', 'c', 'h', ':']
}

/// Whether a key names a channel: it starts with the marker.
pub open spec fn is_channel_key(key: Seq<char>) -> bool {
    key.len() >= 7 && key.subrange(0, 7) == marker()
}

pub open spec fn is_digit(c: char) -> bool {
    '0' <= c && c <= '9'
}

pub open spec fn digit_value(c: char) -> nat {
    (c as u32 - '0' as u32) as nat
}

/// The number that a run of decimal digits writes, the last digit counting
/// least.
pub open spec fn decimal_value(digits: Seq<char>) -> nat
    decreases digits.len(),
{
    if digits.len() == 0 {
        0
    } else {
        decimal_value(digits.drop_last()) * 10 + digit_value(digits.last())
    }
}

pub open spec fn all_digits(s: Seq<char>) -> bool {
    forall|i: int| 0 <= i < s.len() ==> is_digit(#[trigger] s[i])
}

/// A numeral without the one `+` that may stand before its digits.
pub open spec fn unsigned_part(s: Seq<char>) -> Seq<char> {
    if s.len() > 0 && s[0] == '+' {
        s.skip(1)
    } else {
        s
    }
}

/// The channel that a numeral names: at least one decimal digit, after at
/// most one `+`, with a value that fits in 32 bits. Anything else names none.
pub open spec fn channel_id(numeral: Seq<char>) -> Option<u32> {
    let digits = unsigned_part(numeral);
    if digits.len() > 0 && all_digits(digits) && decimal_value(digits) <= u32::MAX {
        Some(decimal_value(digits) as u32)
    } else {
        None
    }
}

/// The channel of a whole key: `None` where the key has no marker or where
/// no channel number follows it.
pub open spec fn key_channel(key: Seq<char>) -> Option<u32> {
    if is_channel_key(key) {
        channel_id(key.skip(7))
    } else {
        None
    }
}

/// A numeral's value never falls when digits are added behind it.
pub proof fn lemma_decimal_value_grows(digits: Seq<char>, k: int)
    requires
        0 <= k <= digits.len(),
    ensures
        decimal_value(digits.take(k)) <= decimal_value(digits),
    decreases digits.len() - k,
{
    if k == digits.len() {
        assert(digits.take(k) == digits);
    } else {
        lemma_decimal_value_grows(digits, k + 1);
        assert(digits.take(k + 1).drop_last() == digits.take(k));
    }
}

/// Tells whether `key` starts with `switch:`.
pub fn has_marker(key: &str) -> (r: bool)
    ensures
        r == is_channel_key(key@),
{
    let n = key.unicode_len();
    if n < 7 {
        return false;
    }
    let want = "switch:";
    proof {
        reveal_strlit("switch:");
    }
    let mut i: usize = 0;
    while i < 7
        invariant
            i <= 7,
            n == key@.len(),
            n >= 7,
            want@ == marker(),
            forall|j: int| 0 <= j < i ==> key@[j] == marker()[j],
        decreases 7 - i,
    {
        if key.get_char(i) != want.get_char(i) {
            assert(key@.subrange(0, 7)[i as int] == key@[i as int]);
            return false;
        }
        i = i + 1;
    }
    assert(key@.subrange(0, 7) =~= marker());
    true
}

/// Reads a channel number: decimal digits, after at most one `+`. The
/// numeral is walked once, from its first character to its last.
pub fn parse_channel_id(numeral: &str) -> (r: Option<u32>)
    ensures
        r == channel_id(numeral@),
{
    broadcast use vstd::string::axiom_spec_iter;

    let ghost start: int = if numeral@.len() > 0 && numeral@[0] == '+' {
        1
    } else {
        0
    };
    let ghost digits = unsigned_part(numeral@);
    let mut acc: u64 = 0;
    let mut at_start = true;
    let mut any_digit = false;
    for c in it: numeral.chars()
        invariant
            it.seq() == numeral@,
            digits == numeral@.skip(start),
            digits == unsigned_part(numeral@),
            0 <= start <= 1,
            start <= numeral@.len(),
            at_start == (it.index() == 0),
            any_digit == (it.index() > start),
            it.index() >= start ==> all_digits(digits.take(it.index() - start)),
            it.index() >= start ==> acc == decimal_value(digits.take(it.index() - start)),
            it.index() < start ==> acc == 0,
            acc <= u32::MAX,
    {
        let ghost k = it.index();
        assert(numeral@[k] == c);
        if at_start && c == '+' {
            at_start = false;
            assert(digits.take(0) =~= Seq::<char>::empty());
        } else {
            at_start = false;
            assert(digits[k - start] == c);
            if c < '0' || c > '9' {
                return None;
            }
            let next: u64 = acc * 10 + (c as u32 - '0' as u32) as u64;
            proof {
                let taken = k - start + 1;
                assert(digits.take(taken).drop_last() == digits.take(taken - 1));
                assert(digits.take(taken).last() == c);
                assert(decimal_value(digits.take(taken)) == next);
                lemma_decimal_value_grows(digits, taken);
                assert forall|j: int| 0 <= j < taken implies is_digit(
                    #[trigger] digits.take(taken)[j],
                ) by {
                    if j < taken - 1 {
                        assert(digits.take(taken - 1)[j] == digits.take(taken)[j]);
                    }
                }
            }
            if next > 0xffff_ffff {
                return None;
            }
            acc = next;
            any_digit = true;
        }
    }
    assert(digits.take(numeral@.len() - start) == digits);
    if any_digit {
        Some(acc as u32)
    } else {
        None
    }
}

/// The character that writes a digit below ten.
pub open spec fn digit_char(d: nat) -> char {
    if d == 0 {
        '0'
    } else if d == 1 {
        '1'
    } else if d == 2 {
        '2'
    } else if d == 3 {
        '3'
    } else if d == 4 {
        '4'
    } else if d == 5 {
        '5'
    } else if d == 6 {
        '6'
    } else if d == 7 {
        '7'
    } else if d == 8 {
        '8'
    } else {
        '9'
    }
}

/// A number in decimal digits, without leading zeros; zero is `0`.
pub open spec fn decimal_text(n: nat) -> Seq<char>
    decreases n,
{
    if n < 10 {
        seq![digit_char(n)]
    } else {
        decimal_text(n / 10).push(digit_char(n % 10))
    }
}

fn digit_str(d: u32) -> (r: &'static str)
    requires
        d < 10,
    ensures
        r@ == seq![digit_char(d as nat)],
{
    proof {
        reveal_strlit("0");
        reveal_strlit("1");
        reveal_strlit("2");
        reveal_strlit("3");
        reveal_strlit("4");
        reveal_strlit("5");
        reveal_strlit("6");
        reveal_strlit("7");
        reveal_strlit("8");
        reveal_strlit("9");
    }
    let r = match d {
        0 => "0",
        1 => "1",
        2 => "2",
        3 => "3",
        4 => "4",
        5 => "5",
        6 => "6",
        7 => "7",
        8 => "8",
        _ => "9",
    };
    assert(r@ =~= seq![digit_char(d as nat)]);
    r
}

/// Writes a channel number in decimal digits.
pub fn channel_text(channel: u32) -> (r: String)
    ensures
        r@ == decimal_text(channel as nat),
    decreases channel,
{
    if channel < 10 {
        String::from_str(digit_str(channel))
    } else {
        let mut text = channel_text(channel / 10);
        text.append(digit_str(channel % 10));
        assert(text@ =~= decimal_text((channel / 10) as nat).push(digit_char((channel % 10) as nat)));
        text
    }
}

/// The digits that write a number are digits, and their value is the number.
pub proof fn lemma_decimal_text_value(n: nat)
    ensures
        decimal_text(n).len() > 0,
        all_digits(decimal_text(n)),
        decimal_value(decimal_text(n)) == n,
        decimal_text(n)[0] != '+',
    decreases n,
{
    if n < 10 {
        let t = decimal_text(n);
        assert(t.drop_last() =~= Seq::<char>::empty());
        assert(decimal_value(t.drop_last()) == 0);
        assert(digit_value(t.last()) == n);
    } else {
        lemma_decimal_text_value(n / 10);
        let t = decimal_text(n);
        assert(t.drop_last() =~= decimal_text(n / 10));
        assert(digit_value(t.last()) == n % 10);
    }
}

/// Reading what was written gives the channel back: the decimal text of a
/// channel number names that channel.
pub proof fn law_written_channel_reads_back(channel: u32)
    ensures
        channel_id(decimal_text(channel as nat)) == Some(channel),
        key_channel(marker() + decimal_text(channel as nat)) == Some(channel),
{
    lemma_decimal_text_value(channel as nat);
    let key = marker() + decimal_text(channel as nat);
    assert(key.subrange(0, 7) =~= marker());
    assert(key.skip(7) =~= decimal_text(channel as nat));
}

} // verus!
