//! What holds of texts, encodings and times.

use vstd::prelude::*;

use crate::clock::{
    clock_text, day_at, ms_of_reading, quotient, sec_of_reading, two_digits, wrapped,
};
use crate::encoding::{escaped, escaped_char, hex_text, json_literal};
use crate::text::{
    ascii_lower, blank, decimal, digit_char, has_part, is_white_space, joined, occurs_at,
    padded, text_less,
};

verus! {

/// A text is part of another exactly where the other is made of something, the text, and something.
pub proof fn part_means_within(whole: Seq<char>, before: Seq<char>, part: Seq<char>, after: Seq<char>)
    ensures
        has_part(before + part + after, part),
        has_part(whole, part) ==> exists|at: int|
            0 <= at && at + part.len() <= whole.len() && whole == #[trigger] whole.take(at) + part
                + whole.skip(at + part.len()),
        part.len() > whole.len() ==> !has_part(whole, part),
{
    let all = before + part + after;
    assert(all.subrange(before.len() as int, (before.len() + part.len()) as int) =~= part);
    assert(occurs_at(all, part, before.len() as int));
    if has_part(whole, part) {
        let at = choose|at: int| occurs_at(whole, part, at);
        assert(whole =~= whole.take(at) + part + whole.skip(at + part.len()));
    }
}

/// Folding changes the letters from A to Z into those from a to z, one for one, and nothing else.
pub proof fn folding_is_ascii(s: Seq<char>, t: Seq<char>, i: int)
    requires
        0 <= i < s.len(),
    ensures
        ascii_lower(s).len() == s.len(),
        'A' <= s[i] && s[i] <= 'Z' ==> ascii_lower(s)[i] as int == s[i] as int + 32,
        !('A' <= s[i] && s[i] <= 'Z') ==> ascii_lower(s)[i] == s[i],
        !('A' <= ascii_lower(s)[i] && ascii_lower(s)[i] <= 'Z'),
        ascii_lower(s + t) == ascii_lower(s) + ascii_lower(t),
{
    assert(ascii_lower(s + t) =~= ascii_lower(s) + ascii_lower(t));
}

/// A text comes before another where it is a proper beginning of it, or has the lower character
/// where they first differ; and only there.
pub proof fn order_is_lexicographic(common: Seq<char>, a: Seq<char>, b: Seq<char>)
    ensures
        a.len() == 0 && b.len() > 0 ==> text_less(common + a, common + b),
        b.len() == 0 ==> !text_less(common + a, common + b),
        a.len() > 0 && b.len() > 0 && a[0] != b[0] ==> text_less(common + a, common + b) == (a[0]
            < b[0]),
    decreases common.len(),
{
    if common.len() == 0 {
        assert(common + a =~= a);
        assert(common + b =~= b);
    } else {
        order_is_lexicographic(common.drop_first(), a, b);
        assert((common + a).drop_first() =~= common.drop_first() + a);
        assert((common + b).drop_first() =~= common.drop_first() + b);
    }
}

/// The value of decimal digits.
pub open spec fn value_of(digits: Seq<char>) -> int
    decreases digits.len(),
{
    if digits.len() == 0 {
        0
    } else {
        value_of(digits.drop_last()) * 10 + (digits.last() as int - 48)
    }
}

/// The digits of a number are digits, have its value, and begin with zero only for zero.
pub proof fn digits_have_the_value(n: nat)
    ensures
        value_of(decimal(n)) == n,
        decimal(n).len() >= 1,
        forall|k: int| 0 <= k < decimal(n).len() ==> '0' <= #[trigger] decimal(n)[k] && decimal(
            n,
        )[k] <= '9',
        n > 0 ==> decimal(n)[0] != '0',
    decreases n,
{
    if n < 10 {
        let one = seq![digit_char(n)];
        assert(one.drop_last() =~= Seq::empty());
        assert(value_of(one.drop_last()) == 0);
    } else {
        digits_have_the_value(n / 10);
        assert(decimal(n).drop_last() =~= decimal(n / 10));
    }
}

/// A padded text is the text, then blanks up to the width.
pub proof fn padding_is_blanks(s: Seq<char>, width: nat)
    ensures
        s.len() >= width ==> padded(s, width) == s,
        s.len() < width ==> padded(s, width).len() == width,
        padded(s, width).take(s.len() as int) == s,
        forall|k: int| s.len() <= k < padded(s, width).len() ==> #[trigger] padded(s, width)[k]
            == ' ',
{
    assert(padded(s, width).take(s.len() as int) =~= s);
}

/// Joined texts stand one behind the other, with the separator only between them.
pub proof fn separators_stand_between(list: Seq<Seq<char>>, next: Seq<char>, separator: Seq<char>)
    ensures
        joined(Seq::empty(), separator).len() == 0,
        joined(seq![next], separator) == next,
        list.len() > 0 ==> joined(list.push(next), separator) == joined(list, separator)
            + separator + next,
{
    if list.len() > 0 {
        assert(list.push(next).drop_last() =~= list);
    }
}

/// A text is blank where every character of it is; the blanks of ASCII are, letters and digits are
/// not.
pub proof fn blanks_are_white(s: Seq<char>, t: Seq<char>, c: char)
    ensures
        blank(s + t) == (blank(s) && blank(t)),
        blank(Seq::empty()),
        blank(seq![c]) == is_white_space(c),
        is_white_space(' ') && is_white_space('\n') && is_white_space('\t') && is_white_space('\r'),
        'a' <= c && c <= 'z' || 'A' <= c && c <= 'Z' || '0' <= c && c <= '9' || c == '{' || c
            == '[' ==> !is_white_space(c),
{
    if blank(s + t) {
        assert forall|i: int| 0 <= i < s.len() implies is_white_space(#[trigger] s[i]) by {
            assert((s + t)[i] == s[i]);
        }
        assert forall|i: int| 0 <= i < t.len() implies is_white_space(#[trigger] t[i]) by {
            assert((s + t)[s.len() + i] == t[i]);
        }
    }
    assert(seq![c][0] == c);
}

/// The value of a hexadecimal digit.
pub open spec fn hex_value(c: char) -> int {
    if c <= '9' {
        c as int - 48
    } else {
        c as int - 87
    }
}

/// Two hexadecimal digits of a text have the value of their byte.
pub proof fn hex_digits_have_the_value(bytes: Seq<u8>, i: int)
    requires
        0 <= i < bytes.len(),
    ensures
        hex_text(bytes).len() == 2 * bytes.len(),
        16 * hex_value(hex_text(bytes)[2 * i]) + hex_value(hex_text(bytes)[2 * i + 1])
            == bytes[i],
{
    assert((2 * i) % 2 == 0 && (2 * i) / 2 == i);
    assert((2 * i + 1) % 2 == 1 && (2 * i + 1) / 2 == i);
}

/// A literal stands in quotes; what is between them is that of each character, in order, and holds
/// no control character. Ordinary characters stand for themselves.
pub proof fn literals_are_quoted(a: Seq<char>, b: Seq<char>, c: char)
    ensures
        json_literal(a)[0] == '"',
        json_literal(a).last() == '"',
        json_literal(a).len() == escaped(a).len() + 2,
        escaped(a + b) == escaped(a) + escaped(b),
        c as int >= 32 && c != '"' && c != '\\' ==> escaped(seq![c]) == seq![c],
        c == '"' || c == '\\' || (c as int) < 32 ==> escaped(seq![c]).len() >= 2 && escaped(
            seq![c],
        )[0] == '\\',
        forall|k: int| 0 <= k < escaped_char(c).len() ==> (#[trigger] escaped_char(c)[k]) as int
            >= 32,
    decreases b.len(),
{
    let one = seq![c];
    assert(one.drop_last() =~= Seq::empty());
    assert(escaped(one.drop_last()) =~= Seq::empty());
    assert(escaped(one) =~= escaped_char(c));
    if b.len() == 0 {
        assert(a + b =~= a);
        assert(escaped(a) + escaped(b) =~= escaped(a));
    } else {
        literals_are_quoted(a, b.drop_last(), c);
        assert((a + b).drop_last() =~= a + b.drop_last());
        assert((a + b).last() == b.last());
        assert(escaped(a + b) =~= escaped(a) + escaped(b));
    }
}

/// The quotient is rounded towards zero.
pub proof fn quotients_are_rounded_towards_zero(a: int)
    ensures
        a >= 0 ==> 1000 * quotient(a, 1000) <= a < 1000 * quotient(a, 1000) + 1000,
        quotient(-a, 1000) == -quotient(a, 1000),
{
}

/// A reading of the clock is taken as it is, as long as the number can hold it.
pub proof fn readings_are_kept(n: u64)
    requires
        n <= i64::MAX,
    ensures
        ms_of_reading(Some(n as u128)) == n,
        sec_of_reading(Some(n)) == n,
        ms_of_reading(None) == 0,
        sec_of_reading(None) == 0,
        wrapped(n as int) == n,
{
}

/// The clock shows the minute of the day, and the day goes up at every midnight.
pub proof fn clock_and_day(day: int, hour: int, minute: int, second: int)
    requires
        0 <= hour < 24,
        0 <= minute < 60,
        0 <= second < 60,
    ensures
        clock_text(86_400 * day + 3600 * hour + 60 * minute + second) == two_digits(hour) + ":"@
            + two_digits(minute),
        two_digits(hour).len() == 2,
        10 * (two_digits(hour)[0] as int - 48) + (two_digits(hour)[1] as int - 48) == hour,
        10 * (two_digits(minute)[0] as int - 48) + (two_digits(minute)[1] as int - 48) == minute,
        day_at(86_400 * day + 3600 * hour + 60 * minute + second, 0) == 719_163 + day,
        forall|seconds: int, offset: int| #[trigger]
            day_at(seconds, offset) == day_at(seconds + offset, 0),
{
    let seconds = 86_400 * day + 3600 * hour + 60 * minute + second;
    assert(seconds % 86_400 == 3600 * hour + 60 * minute + second);
    assert(seconds / 86_400 == day);
}

}
