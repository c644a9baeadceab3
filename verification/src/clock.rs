use vstd::prelude::*;
use crate::text::{decimal, pad_left_spec, u64_text, push_padded_left, all_digits, digits_value, digit_value, lemma_decimal, digit_char};

verus! {

/// `n` written with at least two digits, a leading `0` added below ten
/// (`format!("{:02}", n)`).
pub open spec fn two_digits(n: nat) -> Seq<char> {
    pad_left_spec(decimal(n), 2, '0')
}

/// `seconds` as minutes and seconds within the hour, `MM:SS`.
pub open spec fn minutes_seconds(seconds: nat) -> Seq<char> {
    two_digits((seconds / 60) % 60) + seq![':'] + two_digits(seconds % 60)
}

/// `seconds` as hours, minutes and seconds, `HH:MM:SS`; the hours are not
/// taken modulo a day and may take more than two digits.
pub open spec fn hours_minutes_seconds(seconds: nat) -> Seq<char> {
    two_digits(seconds / 3600) + seq![':'] + two_digits((seconds / 60) % 60) + seq![':']
        + two_digits(seconds % 60)
}

/// Appends `n` with at least two digits.
pub fn push_two_digits(s: &mut String, n: u64)
    ensures
        final(s)@ == old(s)@ + two_digits(n as nat),
{
    let t = u64_text(n);
    push_padded_left(s, t.as_str(), 2, '0');
}

/// Formats a duration in seconds as `MM:SS`: the minutes within the hour and
/// the seconds within the minute, each with two digits.
pub fn format_time(seconds: u64) -> (s: String)
    ensures
        s@ == minutes_seconds(seconds as nat),
{
    let minutes = (seconds / 60) % 60;
    let secs = seconds % 60;
    let mut s = String::new();
    push_two_digits(&mut s, minutes);
    s.push(':');
    push_two_digits(&mut s, secs);
    s
}

/// Formats a duration in seconds as `HH:MM:SS`.
pub fn format_hms(seconds: u64) -> (s: String)
    ensures
        s@ == hours_minutes_seconds(seconds as nat),
{
    let hours = seconds / 3600;
    let minutes = (seconds / 60) % 60;
    let secs = seconds % 60;
    let mut s = String::new();
    push_two_digits(&mut s, hours);
    s.push(':');
    push_two_digits(&mut s, minutes);
    s.push(':');
    push_two_digits(&mut s, secs);
    s
}

/// Below one hundred, `two_digits` is exactly two decimal digits whose value
/// is the number.
pub proof fn lemma_two_digits_small(n: nat)
    requires
        n < 100,
    ensures
        two_digits(n).len() == 2,
        all_digits(two_digits(n)),
        digits_value(two_digits(n)) == n,
{
    lemma_decimal(n);
    if n < 10 {
        let t = two_digits(n);
        assert(t =~= seq!['0', digit_char(n)]);
        assert(t.drop_last() =~= seq!['0']);
        assert(seq!['0'].drop_last() =~= Seq::<char>::empty());
        assert(seq!['0'].last() == '0');
        assert(digit_value('0') == 0);
        assert(digits_value(seq!['0']) == digits_value(Seq::<char>::empty()) * 10 + digit_value('0'));
        assert(digits_value(seq!['0']) == 0);
        assert(decimal(n).drop_last() =~= Seq::<char>::empty());
        assert(digits_value(decimal(n)) == digits_value(Seq::<char>::empty()) * 10 + digit_value(digit_char(n)));
        assert(digit_value(digit_char(n)) == n);
        assert(t.last() == digit_char(n));
    } else {
        lemma_decimal(n / 10);
        assert(decimal(n / 10) == seq![digit_char(n / 10)]);
        assert(decimal(n).drop_last() =~= decimal(n / 10));
        assert(decimal(n / 10).drop_last() =~= Seq::<char>::empty());
    }
}

/// `MM:SS` reads back: five characters, the minutes within the hour before
/// the colon and the seconds within the minute after it.
pub proof fn law_minutes_seconds_read_back(seconds: nat)
    ensures
        minutes_seconds(seconds).len() == 5,
        minutes_seconds(seconds)[2] == ':',
        digits_value(minutes_seconds(seconds).subrange(0, 2)) == (seconds / 60) % 60,
        digits_value(minutes_seconds(seconds).subrange(3, 5)) == seconds % 60,
{
    let m = (seconds / 60) % 60;
    let sec = seconds % 60;
    lemma_two_digits_small(m);
    lemma_two_digits_small(sec);
    let t = minutes_seconds(seconds);
    assert(t.subrange(0, 2) =~= two_digits(m));
    assert(t.subrange(3, 5) =~= two_digits(sec));
}

} // verus!
