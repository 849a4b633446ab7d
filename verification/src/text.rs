//! Text as sequences of characters: the few operations on strings that the rest
//! of the crate decides with, each stated over `Seq<char>`.

use vstd::prelude::*;
use vstd::string::*;

verus! {

/// `text` with every trailing `c` taken off.
pub open spec fn without_trailing(text: Seq<char>, c: char) -> Seq<char>
    decreases text.len(),
{
    if text.len() > 0 && text.last() == c {
        without_trailing(text.drop_last(), c)
    } else {
        text
    }
}

/// Unicode's `White_Space` property.
pub open spec fn white_space(c: char) -> bool {
    ||| '\u{9}' <= c <= '\u{d}'
    ||| c == ' '
    ||| c == '\u{85}'
    ||| c == '\u{a0}'
    ||| c == '\u{1680}'
    ||| '\u{2000}' <= c <= '\u{200a}'
    ||| c == '\u{2028}'
    ||| c == '\u{2029}'
    ||| c == '\u{202f}'
    ||| c == '\u{205f}'
    ||| c == '\u{3000}'
}

/// `text` without the white space it starts with.
pub open spec fn trimmed_start(text: Seq<char>) -> Seq<char>
    decreases text.len(),
{
    if text.len() > 0 && white_space(text.first()) {
        trimmed_start(text.drop_first())
    } else {
        text
    }
}

/// `text` without the white space it ends with.
pub open spec fn trimmed_end(text: Seq<char>) -> Seq<char>
    decreases text.len(),
{
    if text.len() > 0 && white_space(text.last()) {
        trimmed_end(text.drop_last())
    } else {
        text
    }
}

/// `text` without the white space around it.
pub open spec fn trimmed(text: Seq<char>) -> Seq<char> {
    trimmed_end(trimmed_start(text))
}

/// Nothing but white space.
pub open spec fn blank(text: Seq<char>) -> bool {
    forall|i: int| 0 <= i < text.len() ==> white_space(#[trigger] text[i])
}

/// A decimal digit.
pub open spec fn digit(c: char) -> bool {
    '0' <= c <= '9'
}

/// The number that a run of decimal digits writes.
pub open spec fn digits_value(text: Seq<char>) -> nat
    decreases text.len(),
{
    if text.len() == 0 {
        0
    } else {
        digits_value(text.drop_last()) * 10 + (text.last() as nat - '0' as nat) as nat
    }
}

/// A non-empty run of decimal digits.
pub open spec fn all_digits(text: Seq<char>) -> bool {
    &&& text.len() > 0
    &&& forall|i: int| 0 <= i < text.len() ==> digit(#[trigger] text[i])
}

/// `text` without one leading `+`.
pub open spec fn unsigned_part(text: Seq<char>) -> Seq<char> {
    if text.len() > 0 && text.first() == '+' {
        text.drop_first()
    } else {
        text
    }
}

/// What `text` means as a 64-bit unsigned number: an optional `+` and decimal
/// digits, nothing else, within range.
pub open spec fn number(text: Seq<char>) -> Option<u64> {
    let digits = unsigned_part(text);
    if all_digits(digits) && digits_value(digits) <= u64::MAX {
        Some(digits_value(digits) as u64)
    } else {
        None
    }
}

/// The character that writes a single decimal digit.
pub open spec fn digit_char(n: nat) -> char {
    (n + '0' as nat) as char
}

/// `n` in decimal, without leading zeros.
pub open spec fn decimal(n: nat) -> Seq<char>
    decreases n,
{
    if n < 10 {
        seq![digit_char(n)]
    } else {
        decimal(n / 10).push(digit_char(n % 10))
    }
}

/// The characters of `text`.
pub fn characters(text: &str) -> (chars: Vec<char>)
    ensures
        chars@ == text@,
{
    let mut chars: Vec<char> = Vec::new();
    for c in iter: text.chars()
        invariant
            iter.seq() == text@,
            chars@ == text@.take(iter.index()),
    {
        chars.push(c);
    }
    chars
}

/// Whether `text` starts with `prefix`.
pub fn starts_with(text: &str, prefix: &str) -> (yes: bool)
    ensures
        yes == prefix@.is_prefix_of(text@),
{
    let whole: Vec<char> = characters(text);
    let front: Vec<char> = characters(prefix);
    if front.len() > whole.len() {
        return false;
    }
    for i in 0..front.len()
        invariant
            front@ == prefix@,
            whole@ == text@,
            front.len() <= whole.len(),
            forall|j: int| 0 <= j < i ==> front@[j] == whole@[j],
    {
        if front[i] != whole[i] {
            assert(prefix@[i as int] != text@.subrange(0, prefix@.len() as int)[i as int]);
            return false;
        }
    }
    assert(prefix@ =~= text@.subrange(0, prefix@.len() as int));
    true
}

/// Whether two texts are the same, character for character.
pub fn same(left: &str, right: &str) -> (yes: bool)
    ensures
        yes == (left@ == right@),
{
    let equal = left.to_owned() == right.to_owned();
    equal
}

/// `text` without its trailing `c`s.
pub fn trim_end_matches(text: &str, c: char) -> (kept: &str)
    ensures
        kept@ == without_trailing(text@, c),
{
    let chars: Vec<char> = characters(text);
    let mut end: usize = chars.len();
    assert(text@.take(end as int) =~= text@);
    while end > 0 && chars[end - 1] == c
        invariant
            chars@ == text@,
            end <= chars.len(),
            without_trailing(text@, c) == without_trailing(text@.take(end as int), c),
        decreases end,
    {
        assert(text@.take(end as int).drop_last() =~= text@.take(end - 1));
        end = end - 1;
    }
    assert(text@.subrange(0, end as int) =~= text@.take(end as int));
    text.substring_char(0, end)
}

/// Whether `c` is white space.
pub fn is_white_space(c: char) -> (yes: bool)
    ensures
        yes == white_space(c),
{
    ('\u{9}' <= c && c <= '\u{d}') || c == ' ' || c == '\u{85}' || c == '\u{a0}' || c == '\u{1680}'
        || ('\u{2000}' <= c && c <= '\u{200a}') || c == '\u{2028}' || c == '\u{2029}' || c
        == '\u{202f}' || c == '\u{205f}' || c == '\u{3000}'
}

/// `text` without the white space around it.
pub fn trim(text: &str) -> (kept: &str)
    ensures
        kept@ == trimmed(text@),
{
    let chars: Vec<char> = characters(text);
    let mut start: usize = 0;
    let mut end: usize = chars.len();
    assert(text@.skip(0) =~= text@);
    while start < chars.len() && is_white_space(chars[start])
        invariant
            chars@ == text@,
            start <= chars.len(),
            trimmed_start(text@) == trimmed_start(text@.skip(start as int)),
        decreases chars.len() - start,
    {
        assert(text@.skip(start as int).drop_first() =~= text@.skip(start + 1));
        start = start + 1;
    }
    let ghost rest = text@.skip(start as int);
    assert(trimmed_start(text@) == rest);
    assert(text@.subrange(start as int, end as int) =~= rest);
    while end > start && is_white_space(chars[end - 1])
        invariant
            chars@ == text@,
            start <= end <= chars.len(),
            trimmed_end(rest) == trimmed_end(text@.subrange(start as int, end as int)),
        decreases end,
    {
        assert(text@.subrange(start as int, end as int).drop_last() =~= text@.subrange(
            start as int,
            end - 1,
        ));
        end = end - 1;
    }
    text.substring_char(start, end)
}

/// Whether `text` is nothing but white space.
pub fn is_blank(text: &str) -> (yes: bool)
    ensures
        yes == blank(text@),
{
    let chars: Vec<char> = characters(text);
    for i in 0..chars.len()
        invariant
            chars@ == text@,
            forall|j: int| 0 <= j < i ==> white_space(#[trigger] text@[j]),
    {
        if !is_white_space(chars[i]) {
            assert(!white_space(text@[i as int]));
            return false;
        }
    }
    true
}

/// A digit more makes a run of digits write no smaller a number.
proof fn digits_value_grows(text: Seq<char>, n: int)
    requires
        0 <= n <= text.len(),
    ensures
        digits_value(text.take(n)) <= digits_value(text),
    decreases text.len() - n,
{
    if n < text.len() {
        digits_value_grows(text, n + 1);
        assert(text.take(n + 1).drop_last() =~= text.take(n));
    } else {
        assert(text.take(n) =~= text);
    }
}

/// `text` as a 64-bit unsigned number.
pub fn parse_number(text: &str) -> (value: Option<u64>)
    ensures
        value == number(text@),
{
    let chars: Vec<char> = characters(text);
    let start: usize = if chars.len() > 0 && chars[0] == '+' {
        1
    } else {
        0
    };
    let ghost digits = unsigned_part(text@);
    assert(digits =~= text@.skip(start as int));
    if start == chars.len() {
        return None;
    }
    let mut value: u64 = 0;
    let mut i: usize = start;
    assert(digits.take(0) =~= Seq::<char>::empty());
    while i < chars.len()
        invariant
            chars@ == text@,
            start <= i <= chars.len(),
            start < chars.len(),
            digits == unsigned_part(text@),
            digits == text@.skip(start as int),
            forall|j: int| 0 <= j < i - start ==> digit(#[trigger] digits[j]),
            value == digits_value(digits.take(i - start)),
        decreases chars.len() - i,
    {
        let c: char = chars[i];
        let ghost k = i - start;
        assert(digits[k] == c);
        if !('0' <= c && c <= '9') {
            assert(!digit(digits[k]));
            return None;
        }
        let d: u64 = (c as u32 - '0' as u32) as u64;
        assert(digits.take(k + 1).drop_last() =~= digits.take(k));
        assert(digits_value(digits.take(k + 1)) == value * 10 + d);
        if value > (u64::MAX - d) / 10 {
            proof {
                digits_value_grows(digits, k + 1);
                assert(value * 10 + d > u64::MAX);
            }
            return None;
        }
        value = value * 10 + d;
        i = i + 1;
    }
    assert(digits.take(digits.len() as int) =~= digits);
    Some(value)
}

/// The one character of text that writes a decimal digit.
fn digit_text(n: u64) -> (text: &'static str)
    requires
        n < 10,
    ensures
        text@ == seq![digit_char(n as nat)],
{
    proof {
        reveal_strlit("0");
        reveal_strlit("1");
        reveal_strlit("2");
        reveal_strlit("3");
        reveal_strlit("4");
        reveal_strlit("5");
        reveal_strlit("6");
        reveal_strlit("7");
        reveal_strlit("8");
        reveal_strlit("9");
    }
    match n {
        0 => "0",
        1 => "1",
        2 => "2",
        3 => "3",
        4 => "4",
        5 => "5",
        6 => "6",
        7 => "7",
        8 => "8",
        _ => "9",
    }
}

/// `n` in decimal.
pub fn decimal_text(n: u64) -> (text: String)
    ensures
        text@ == decimal(n as nat),
    decreases n,
{
    if n < 10 {
        digit_text(n).to_owned()
    } else {
        let mut text = decimal_text(n / 10);
        let last: &'static str = digit_text(n % 10);
        text.append(last);
        proof {
            assert(text@ =~= decimal(n as nat / 10).push(digit_char(n as nat % 10)));
        }
        text
    }
}

/// A run of digits writes back the number it was written from.
pub proof fn decimal_reads_back(n: nat)
    ensures
        all_digits(decimal(n)),
        digits_value(decimal(n)) == n,
    decreases n,
{
    if n < 10 {
        let text = decimal(n);
        assert(text.drop_last() =~= Seq::<char>::empty());
        assert(digits_value(text.drop_last()) == 0);
    } else {
        decimal_reads_back(n / 10);
        let text = decimal(n);
        assert(text.drop_last() =~= decimal(n / 10));
        assert forall|i: int| 0 <= i < text.len() implies digit(#[trigger] text[i]) by {
            if i < text.len() - 1 {
                assert(decimal(n / 10)[i] == text[i]);
            }
        }
    }
}

/// A text is blank exactly when nothing is left of it once it is trimmed.
pub proof fn blank_is_nothing_left(text: Seq<char>)
    ensures
        blank(text) <==> trimmed(text).len() == 0,
    decreases text.len(),
{
    if text.len() > 0 && white_space(text.first()) {
        blank_is_nothing_left(text.drop_first());
        let rest = text.drop_first();
        if blank(rest) {
            assert forall|i: int| 0 <= i < text.len() implies white_space(#[trigger] text[i]) by {
                if i > 0 {
                    assert(rest[i - 1] == text[i]);
                }
            }
        }
        if blank(text) {
            assert forall|i: int| 0 <= i < rest.len() implies white_space(#[trigger] rest[i]) by {
                assert(rest[i] == text[i + 1]);
            }
        }
    } else if text.len() > 0 {
        assert(!white_space(text[0]));
        trimmed_end_keeps_first(text);
    }
}

/// Trimming the end leaves a text that starts with something else than white
/// space its first character.
proof fn trimmed_end_keeps_first(text: Seq<char>)
    requires
        text.len() > 0,
        !white_space(text.first()),
    ensures
        trimmed_end(text).len() > 0,
    decreases text.len(),
{
    if white_space(text.last()) {
        assert(text.drop_last().first() == text.first());
        trimmed_end_keeps_first(text.drop_last());
    }
}

/// Exactly the run of `c`s that a text ends with is taken off: what stands in front of
/// the run is kept whole, whatever it holds.
pub proof fn only_the_trailing_run_is_taken_off(kept: Seq<char>, c: char, k: nat)
    requires
        kept.len() == 0 || kept.last() != c,
    ensures
        without_trailing(kept + Seq::new(k, |i: int| c), c) == kept,
    decreases k,
{
    let text = kept + Seq::new(k, |i: int| c);
    if k == 0 {
        assert(text =~= kept);
    } else {
        let fewer = (k - 1) as nat;
        only_the_trailing_run_is_taken_off(kept, c, fewer);
        assert(text.drop_last() =~= kept + Seq::new(fewer, |i: int| c));
        assert(text.last() == c);
    }
}

/// White space in front of a text is no part of what it is without it.
proof fn space_in_front_is_trimmed(before: Seq<char>, rest: Seq<char>)
    requires
        forall|i: int| 0 <= i < before.len() ==> white_space(#[trigger] before[i]),
    ensures
        trimmed_start(before + rest) == trimmed_start(rest),
    decreases before.len(),
{
    if before.len() == 0 {
        assert(before + rest =~= rest);
    } else {
        let fewer = before.drop_first();
        assert((before + rest).drop_first() =~= fewer + rest);
        assert((before + rest).first() == before[0]);
        assert forall|i: int| 0 <= i < fewer.len() implies white_space(#[trigger] fewer[i]) by {
            assert(fewer[i] == before[i + 1]);
        }
        space_in_front_is_trimmed(fewer, rest);
    }
}

/// White space behind a text is no part of what it is without it.
proof fn space_behind_is_trimmed(rest: Seq<char>, after: Seq<char>)
    requires
        forall|i: int| 0 <= i < after.len() ==> white_space(#[trigger] after[i]),
    ensures
        trimmed_end(rest + after) == trimmed_end(rest),
    decreases after.len(),
{
    if after.len() == 0 {
        assert(rest + after =~= rest);
    } else {
        let fewer = after.drop_last();
        assert((rest + after).drop_last() =~= rest + fewer);
        assert((rest + after).last() == after[after.len() - 1]);
        assert forall|i: int| 0 <= i < fewer.len() implies white_space(#[trigger] fewer[i]) by {
            assert(fewer[i] == after[i]);
        }
        space_behind_is_trimmed(rest, fewer);
    }
}

/// Exactly the white space around a text is trimmed: what starts and ends with
/// something else is kept whole, white space within it included.
pub proof fn only_the_space_around_is_trimmed(
    before: Seq<char>,
    kept: Seq<char>,
    after: Seq<char>,
)
    requires
        forall|i: int| 0 <= i < before.len() ==> white_space(#[trigger] before[i]),
        forall|i: int| 0 <= i < after.len() ==> white_space(#[trigger] after[i]),
        kept.len() > 0 ==> !white_space(kept.first()) && !white_space(kept.last()),
    ensures
        trimmed(before + kept + after) == kept,
{
    let rest = kept + after;
    assert(before + kept + after =~= before + rest);
    space_in_front_is_trimmed(before, rest);
    if kept.len() == 0 {
        assert(rest =~= after + Seq::<char>::empty());
        space_in_front_is_trimmed(after, Seq::<char>::empty());
        assert(kept =~= Seq::<char>::empty());
    } else {
        assert(rest.first() == kept.first());
        assert(trimmed_start(rest) == rest);
        space_behind_is_trimmed(kept, after);
    }
}

/// A text is blank exactly when every character of it is white space, so one other
/// character anywhere is enough for it not to be.
pub proof fn one_character_is_not_blank(before: Seq<char>, c: char, after: Seq<char>)
    requires
        !white_space(c),
    ensures
        !blank(before + seq![c] + after),
        blank(Seq::<char>::empty()),
        blank(before) && blank(after) <==> blank(before + after),
{
    let text = before + seq![c] + after;
    assert(text[before.len() as int] == c);
    let both = before + after;
    if blank(both) {
        assert forall|i: int| 0 <= i < before.len() implies white_space(#[trigger] before[i]) by {
            assert(both[i] == before[i]);
        }
        assert forall|i: int| 0 <= i < after.len() implies white_space(#[trigger] after[i]) by {
            assert(both[before.len() + i] == after[i]);
        }
    }
}

/// A number is written digit by digit: a number below ten as its own digit, and ten
/// times a number and a digit as the number with the digit behind it.
pub proof fn a_number_is_written_digit_by_digit(n: nat, d: nat)
    requires
        d < 10,
    ensures
        decimal(d).len() == 1,
        decimal(d)[0] as nat == '0' as nat + d,
        n > 0 ==> decimal(n * 10 + d) == decimal(n) + decimal(d),
{
    if n > 0 {
        assert((n * 10 + d) / 10 == n && (n * 10 + d) % 10 == d);
        assert(decimal(n) + decimal(d) =~= decimal(n).push(digit_char(d)));
    }
}

/// Zeros in front of digits change nothing.
proof fn leading_zeros_count_for_nothing(zeros: nat, text: Seq<char>)
    ensures
        digits_value(Seq::new(zeros, |i: int| '0') + text) == digits_value(text),
    decreases zeros + text.len(),
{
    let front = Seq::new(zeros, |i: int| '0');
    let whole = front + text;
    if text.len() > 0 {
        leading_zeros_count_for_nothing(zeros, text.drop_last());
        assert(whole.drop_last() =~= front + text.drop_last());
        assert(whole.last() == text.last());
    } else if zeros > 0 {
        let fewer = (zeros - 1) as nat;
        leading_zeros_count_for_nothing(fewer, text);
        assert(whole.drop_last() =~= Seq::new(fewer, |i: int| '0') + text);
        assert(whole.last() == '0');
    } else {
        assert(whole =~= text);
    }
}

/// A number reads back from its digits, whatever zeros and whether or not a `+` stand
/// in front, as long as it fits in 64 bits; a larger one is no number here.
pub proof fn a_number_reads_back(n: nat, zeros: nat, signed: bool)
    ensures
        number(
            (if signed {
                seq!['+']
            } else {
                Seq::<char>::empty()
            }) + Seq::new(zeros, |i: int| '0') + decimal(n),
        ) == (if n <= u64::MAX {
            Some(n as u64)
        } else {
            None
        }),
{
    let sign = if signed {
        seq!['+']
    } else {
        Seq::<char>::empty()
    };
    let front = Seq::new(zeros, |i: int| '0');
    let digits = front + decimal(n);
    let text = sign + front + decimal(n);
    decimal_reads_back(n);
    leading_zeros_count_for_nothing(zeros, decimal(n));
    assert(all_digits(digits)) by {
        assert forall|i: int| 0 <= i < digits.len() implies digit(#[trigger] digits[i]) by {
            if i >= zeros {
                assert(digits[i] == decimal(n)[i - zeros]);
            }
        }
    }
    if signed {
        assert(text.first() == '+');
        assert(unsigned_part(text) =~= digits);
    } else {
        assert(text =~= digits);
        assert(digit(digits[0]));
    }
}

/// Nothing but digits, and a `+` in front of them, is a number.
pub proof fn only_digits_are_a_number(text: Seq<char>)
    requires
        number(text) is Some,
    ensures
        text.len() > 0,
        text[0] == '+' ==> text.len() > 1,
        forall|i: int|
            0 <= i < text.len() ==> '0' <= (#[trigger] text[i]) <= '9' || (i == 0 && text[i] == '+'),
{
    let digits = unsigned_part(text);
    assert forall|i: int| 0 <= i < text.len() implies '0' <= (#[trigger] text[i]) <= '9' || (i == 0
        && text[i] == '+') by {
        if text.first() == '+' {
            if i > 0 {
                assert(digit(digits[i - 1]));
            }
        } else {
            assert(digit(digits[i]));
        }
    }
}

} // verus!
