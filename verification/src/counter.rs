//! Reading a counter file and turning counter readings into gauge values.
use vstd::prelude::*;

verus! {

/// `c` has the Unicode property White_Space.
pub open spec fn is_white_space(c: char) -> bool {
    ||| '\u{9}' <= c <= '\u{d}'
    ||| c == ' '
    ||| c == '\u{85}'
    ||| c == '\u{a0}'
    ||| c == '\u{1680}'
    ||| '\u{2000}' <= c <= '\u{200a}'
    ||| c == '\u{2028}'
    ||| c == '\u{2029}'
    ||| c == '\u{202f}'
    ||| c == '\u{205f}'
    ||| c == '\u{3000}'
}

/// `text` without the white space that it starts with.
pub open spec fn trim_start(text: Seq<char>) -> Seq<char>
    decreases text.len(),
{
    if text.len() > 0 && is_white_space(text[0]) {
        trim_start(text.drop_first())
    } else {
        text
    }
}

/// `text` without the white space that it ends with.
pub open spec fn trim_end(text: Seq<char>) -> Seq<char>
    decreases text.len(),
{
    if text.len() > 0 && is_white_space(text.last()) {
        trim_end(text.drop_last())
    } else {
        text
    }
}

/// Every character of `text` is one of the digits 0 to 9.
pub open spec fn all_digits(text: Seq<char>) -> bool {
    forall|i: int| 0 <= i < text.len() ==> '0' <= #[trigger] text[i] <= '9'
}

/// The number that the digits of `text` write in base ten.
pub open spec fn decimal(text: Seq<char>) -> nat
    decreases text.len(),
{
    if text.len() == 0 {
        0
    } else {
        decimal(text.drop_last()) * 10 + (text.last() as nat - '0' as nat) as nat
    }
}

/// `text` without a leading plus sign.
pub open spec fn without_plus(text: Seq<char>) -> Seq<char> {
    if text.len() > 0 && text[0] == '+' {
        text.drop_first()
    } else {
        text
    }
}

/// The 64-bit number that `text` writes: an optional plus sign and one or more digits.
pub open spec fn written_u64(text: Seq<char>) -> Option<u64> {
    let digits = without_plus(text);
    if digits.len() > 0 && all_digits(digits) && decimal(digits) <= u64::MAX {
        Some(decimal(digits) as u64)
    } else {
        None
    }
}

/// The value that a counter file with this content reports.
pub open spec fn counter_value(content: Seq<char>) -> Option<u64> {
    written_u64(trim_end(trim_start(content)))
}

fn white_space(c: char) -> (b: bool)
    ensures
        b == is_white_space(c),
{
    ('\u{9}' <= c && c <= '\u{d}') || c == ' ' || c == '\u{85}' || c == '\u{a0}' || c == '\u{1680}'
        || ('\u{2000}' <= c && c <= '\u{200a}') || c == '\u{2028}' || c == '\u{2029}' || c
        == '\u{202f}' || c == '\u{205f}' || c == '\u{3000}'
}

/// The characters of `text`.
fn characters(text: &str) -> (chars: Vec<char>)
    ensures
        chars@ == text@,
{
    let mut chars: Vec<char> = Vec::new();
    for c in it: text.chars()
        invariant
            chars@ == it.seq().take(it.index() as int),
            it.seq() == text@,
    {
        chars.push(c);
    }
    chars
}

proof fn lemma_decimal_grows(text: Seq<char>, n: int)
    requires
        0 <= n <= text.len(),
        all_digits(text),
    ensures
        decimal(text.take(n)) <= decimal(text),
    decreases text.len(),
{
    if n == text.len() {
        assert(text.take(n) =~= text);
    } else {
        lemma_decimal_grows(text.drop_last(), n);
        assert(text.drop_last().take(n) =~= text.take(n));
    }
}

/// Parses `chars` from `start` up to `end` as [`written_u64`] describes.
fn parse_u64(chars: &Vec<char>, start: usize, end: usize) -> (value: Option<u64>)
    requires
        start <= end <= chars.len(),
    ensures
        value == written_u64(chars@.subrange(start as int, end as int)),
{
    let ghost text = chars@.subrange(start as int, end as int);
    let first: usize = if start < end && chars[start] == '+' {
        start + 1
    } else {
        start
    };
    let ghost digits = chars@.subrange(first as int, end as int);
    assert(digits =~= without_plus(text));
    if first == end {
        return None;
    }
    let mut value: u64 = 0;
    let mut i: usize = first;
    while i < end
        invariant
            first <= i <= end <= chars.len(),
            first < end,
            text == chars@.subrange(start as int, end as int),
            digits == without_plus(text),
            digits == chars@.subrange(first as int, end as int),
            all_digits(digits.take(i - first)),
            value == decimal(digits.take(i - first)),
        decreases end - i,
    {
        let c = chars[i];
        assert(c == digits[i - first]);
        if c < '0' || '9' < c {
            return None;
        }
        assert(digits.take(i + 1 - first).drop_last() =~= digits.take(i - first));
        let next: u128 = value as u128 * 10 + (c as u32 - '0' as u32) as u128;
        assert(next == decimal(digits.take(i + 1 - first)));
        if next > u64::MAX as u128 {
            proof {
                if all_digits(digits) {
                    lemma_decimal_grows(digits, i + 1 - first);
                }
            }
            return None;
        }
        value = next as u64;
        i = i + 1;
    }
    assert(digits.take(end - first) =~= digits);
    Some(value)
}

/// The number of characters that [`trim_start`] takes off.
fn leading_white_space(chars: &Vec<char>) -> (start: usize)
    ensures
        start <= chars.len(),
        trim_start(chars@) == chars@.skip(start as int),
{
    let mut start: usize = 0;
    assert(chars@.skip(0) =~= chars@);
    while start < chars.len() && white_space(chars[start])
        invariant
            start <= chars.len(),
            trim_start(chars@) == trim_start(chars@.skip(start as int)),
        decreases chars.len() - start,
    {
        assert(chars@.skip(start as int).drop_first() =~= chars@.skip(start + 1));
        start = start + 1;
    }
    start
}

/// The position after the last character from `start` on that [`trim_end`] keeps.
fn end_of_body(chars: &Vec<char>, start: usize) -> (end: usize)
    requires
        start <= chars.len(),
    ensures
        start <= end <= chars.len(),
        trim_end(chars@.skip(start as int)) == chars@.subrange(start as int, end as int),
{
    let ghost body = chars@.skip(start as int);
    let mut end: usize = chars.len();
    assert(chars@.subrange(start as int, end as int) =~= body);
    while end > start && white_space(chars[end - 1])
        invariant
            start <= end <= chars.len(),
            trim_end(body) == trim_end(chars@.subrange(start as int, end as int)),
        decreases end,
    {
        assert(chars@.subrange(start as int, end as int).drop_last() =~= chars@.subrange(
            start as int,
            end - 1,
        ));
        end = end - 1;
    }
    end
}

/// Parses the content of a counter file: a number between optional white space.
pub fn parse_counter(content: &str) -> (value: Option<u64>)
    ensures
        value == counter_value(content@),
{
    let chars = characters(content);
    let start = leading_white_space(&chars);
    let end = end_of_body(&chars, start);
    parse_u64(&chars, start, end)
}

/// The difference between two readings of a counter. A counter that reads less than before has
/// started again from zero, so that its reading is the difference.
pub open spec fn counter_delta(current: u64, previous: u64) -> u64 {
    if current >= previous {
        (current - previous) as u64
    } else {
        current
    }
}

/// Computes the delta between two counter readings. If the counter appears to have reset
/// (current < previous), returns the current value assuming the counter restarted from 0.
pub fn compute_delta(current: u64, previous: u64) -> (delta: u64)
    ensures
        delta == counter_delta(current, previous),
        current >= previous ==> previous + delta == current,
        current < previous ==> delta == current,
        delta <= current,
{
    if current >= previous {
        current - previous
    } else {
        current
    }
}

/// A counter file that holds the digits of a 64-bit number and a line break reads as that number.
pub proof fn law_written_counter_reads_back(digits: Seq<char>)
    requires
        digits.len() > 0,
        all_digits(digits),
        decimal(digits) <= u64::MAX,
    ensures
        counter_value(digits.push('\n')) == Some(decimal(digits) as u64),
{
    let content = digits.push('\n');
    assert(!is_white_space(digits[0]) && !is_white_space(digits.last())) by {
        assert('0' <= digits[digits.len() - 1] <= '9');
    }
    assert(content[0] == digits[0]);
    assert(trim_start(content) == content);
    assert(content.drop_last() =~= digits);
    assert(trim_end(digits) == digits);
    assert(trim_end(content) == trim_end(content.drop_last()));
}

/// The differences between successive readings, added up.
pub open spec fn total_delta(readings: Seq<u64>) -> int
    decreases readings.len(),
{
    if readings.len() < 2 {
        0
    } else {
        total_delta(readings.drop_last()) + counter_delta(
            readings.last(),
            readings[readings.len() - 2],
        )
    }
}

/// The differences between the readings of a counter that never starts again add up to what it has
/// counted from the first reading to the last, however many readings there are in between.
pub proof fn law_deltas_add_up(readings: Seq<u64>)
    requires
        readings.len() > 0,
        forall|i: int, j: int| 0 <= i <= j < readings.len() ==> readings[i] <= readings[j],
    ensures
        total_delta(readings) == readings.last() - readings[0],
    decreases readings.len(),
{
    if readings.len() >= 2 {
        law_deltas_add_up(readings.drop_last());
    }
}

/// The value that a signed gauge takes for `delta`: from 2^63 on it wraps into the negatives.
pub open spec fn gauge_value(delta: u64) -> i64 {
    if delta <= i64::MAX {
        delta as i64
    } else {
        (delta - 0x1_0000_0000_0000_0000) as i64
    }
}

/// `delta` as the value of a signed gauge.
pub fn as_gauge_value(delta: u64) -> (value: i64)
    ensures
        value == gauge_value(delta),
        delta <= 0x7fff_ffff_ffff_ffff ==> value as int == delta as int,
        delta > 0x7fff_ffff_ffff_ffff ==> value as int == delta - 0x1_0000_0000_0000_0000,
{
    assert(delta > 0x7fff_ffff_ffff_ffffu64 ==> (delta as i64) == delta - 0x1_0000_0000_0000_0000)
        by (bit_vector);
    delta as i64
}

} // verus!
