//! What holds of counter files and of changes of counters, whatever they hold.
use vstd::prelude::*;

use crate::counter::{
    all_digits, counter_delta, counter_value, decimal, gauge_value, is_white_space, trim_end,
    trim_start, without_plus,
};

verus! {

/// The digits of `n` in base ten, without leading zeros.
pub open spec fn decimal_text(n: nat) -> Seq<char>
    decreases n,
{
    let digits = seq!['0', '1', '2', '3', '4', '5', '6', '7', '8', '9'];
    if n < 10 {
        seq![digits[n as int]]
    } else {
        decimal_text(n / 10).push(digits[(n % 10) as int])
    }
}

/// Every character of `text` is white space: a tab, a line break or another of the control
/// characters up to U+000D, a space, or one of the other spaces of Unicode.
pub open spec fn blank(text: Seq<char>) -> bool {
    forall|i: int|
        #![trigger text[i]]
        0 <= i < text.len() ==> {
            let code = text[i] as int;
            ||| 0x9 <= code <= 0xd
            ||| 0x2000 <= code <= 0x200a
            ||| code == 0x20 || code == 0x85 || code == 0xa0 || code == 0x1680
            ||| code == 0x2028 || code == 0x2029 || code == 0x202f || code == 0x205f
            ||| code == 0x3000
        }
}

/// `content` is made of these parts: white space, a plus sign or nothing, zeros, the digits of `n`,
/// and white space.
pub open spec fn made_of(
    content: Seq<char>,
    n: nat,
    before: Seq<char>,
    sign: Seq<char>,
    zeros: Seq<char>,
    after: Seq<char>,
) -> bool {
    &&& blank(before)
    &&& sign == Seq::<char>::empty() || sign == seq!['+']
    &&& forall|i: int| 0 <= i < zeros.len() ==> #[trigger] zeros[i] == '0'
    &&& blank(after)
    &&& content == before + sign + zeros + decimal_text(n) + after
}

/// `content` is the number `n`, possibly with a plus sign and leading zeros, between white space.
pub open spec fn holds_number(content: Seq<char>, n: nat) -> bool {
    exists|before: Seq<char>, sign: Seq<char>, zeros: Seq<char>, after: Seq<char>|
        made_of(content, n, before, sign, zeros, after)
}

proof fn lemma_blank(text: Seq<char>)
    ensures
        blank(text) <==> forall|i: int| 0 <= i < text.len() ==> is_white_space(#[trigger] text[i]),
{
    assert forall|i: int| blank(text) && 0 <= i < text.len() implies is_white_space(
        #[trigger] text[i],
    ) by {}
    if forall|i: int| 0 <= i < text.len() ==> is_white_space(#[trigger] text[i]) {
        assert forall|i: int| #![trigger text[i]] 0 <= i < text.len() implies {
            let code = text[i] as int;
            ||| 0x9 <= code <= 0xd
            ||| 0x2000 <= code <= 0x200a
            ||| code == 0x20 || code == 0x85 || code == 0xa0 || code == 0x1680
            ||| code == 0x2028 || code == 0x2029 || code == 0x202f || code == 0x205f
            ||| code == 0x3000
        } by {
            assert(is_white_space(text[i]));
        }
    }
}

proof fn lemma_decimal_text(n: nat)
    ensures
        decimal_text(n).len() > 0,
        all_digits(decimal_text(n)),
        decimal(decimal_text(n)) == n,
    decreases n,
{
    let text = decimal_text(n);
    if n < 10 {
        assert(text.drop_last() =~= seq![]);
        assert(decimal(seq![]) == 0);
    } else {
        lemma_decimal_text(n / 10);
        assert(text.drop_last() =~= decimal_text(n / 10));
        assert forall|i: int| 0 <= i < text.len() implies '0' <= #[trigger] text[i] <= '9' by {
            if i < text.len() - 1 {
                assert(text[i] == decimal_text(n / 10)[i]);
            }
        }
    }
}

proof fn lemma_leading_zeros(zeros: Seq<char>, digits: Seq<char>)
    requires
        forall|i: int| 0 <= i < zeros.len() ==> #[trigger] zeros[i] == '0',
    ensures
        decimal(zeros + digits) == decimal(digits),
    decreases zeros.len() + digits.len(),
{
    if digits.len() > 0 {
        lemma_leading_zeros(zeros, digits.drop_last());
        assert((zeros + digits).drop_last() =~= zeros + digits.drop_last());
    } else if zeros.len() > 0 {
        lemma_leading_zeros(zeros.drop_last(), digits);
        assert(zeros + digits =~= zeros);
        assert(zeros.drop_last() + digits =~= zeros.drop_last());
    } else {
        assert(zeros + digits =~= digits);
    }
}

proof fn lemma_digits_are_text(digits: Seq<char>) -> (zeros: Seq<char>)
    requires
        digits.len() > 0,
        all_digits(digits),
    ensures
        forall|i: int| 0 <= i < zeros.len() ==> #[trigger] zeros[i] == '0',
        digits == zeros + decimal_text(decimal(digits)),
    decreases digits.len(),
{
    let rest = digits.drop_last();
    let n = decimal(digits);
    let last = digits.last();
    assert('0' <= digits[digits.len() - 1] <= '9');
    let k = (last as nat - '0' as nat) as nat;
    assert(seq!['0', '1', '2', '3', '4', '5', '6', '7', '8', '9'][k as int] == last);
    if rest.len() == 0 {
        assert(decimal(rest) == 0);
        assert(digits =~= Seq::<char>::empty() + decimal_text(n));
        Seq::empty()
    } else {
        let zeros = lemma_digits_are_text(rest);
        if decimal(rest) == 0 {
            assert(decimal_text(0) =~= seq!['0']);
            assert(rest =~= zeros.push('0'));
            assert(digits =~= rest + decimal_text(n));
            rest
        } else {
            assert(n / 10 == decimal(rest) && n % 10 == k);
            assert(decimal_text(n) == decimal_text(decimal(rest)).push(last));
            assert(digits =~= rest.push(last));
            assert(digits =~= zeros + decimal_text(n));
            zeros
        }
    }
}

proof fn lemma_trim_start_blank(before: Seq<char>, text: Seq<char>)
    requires
        forall|i: int| 0 <= i < before.len() ==> is_white_space(#[trigger] before[i]),
    ensures
        trim_start(before + text) == trim_start(text),
    decreases before.len(),
{
    if before.len() > 0 {
        assert((before + text)[0] == before[0]);
        assert((before + text).drop_first() =~= before.drop_first() + text);
        lemma_trim_start_blank(before.drop_first(), text);
    } else {
        assert(before + text =~= text);
    }
}

proof fn lemma_trim_end_blank(text: Seq<char>, after: Seq<char>)
    requires
        forall|i: int| 0 <= i < after.len() ==> is_white_space(#[trigger] after[i]),
    ensures
        trim_end(text + after) == trim_end(text),
    decreases after.len(),
{
    if after.len() > 0 {
        assert((text + after).last() == after[after.len() - 1]);
        assert((text + after).drop_last() =~= text + after.drop_last());
        lemma_trim_end_blank(text, after.drop_last());
    } else {
        assert(text + after =~= text);
    }
}

proof fn lemma_trimmed_start(text: Seq<char>) -> (before: Seq<char>)
    ensures
        forall|i: int| 0 <= i < before.len() ==> is_white_space(#[trigger] before[i]),
        text == before + trim_start(text),
    decreases text.len(),
{
    if text.len() > 0 && is_white_space(text[0]) {
        let before = lemma_trimmed_start(text.drop_first());
        let all = seq![text[0]] + before;
        assert(text =~= seq![text[0]] + text.drop_first());
        assert(text =~= all + trim_start(text));
        assert forall|i: int| 0 <= i < all.len() implies is_white_space(#[trigger] all[i]) by {
            if i > 0 {
                assert(all[i] == before[i - 1]);
            }
        }
        all
    } else {
        assert(text =~= Seq::<char>::empty() + trim_start(text));
        Seq::empty()
    }
}

proof fn lemma_trimmed_end(text: Seq<char>) -> (after: Seq<char>)
    ensures
        forall|i: int| 0 <= i < after.len() ==> is_white_space(#[trigger] after[i]),
        text == trim_end(text) + after,
    decreases text.len(),
{
    if text.len() > 0 && is_white_space(text.last()) {
        let after = lemma_trimmed_end(text.drop_last());
        let all = after.push(text.last());
        assert(text =~= text.drop_last().push(text.last()));
        assert(text =~= trim_end(text) + all);
        all
    } else {
        assert(text =~= trim_end(text) + Seq::<char>::empty());
        Seq::empty()
    }
}

/// A counter file reads as a number exactly where it holds that number: any 64-bit number, with or
/// without a plus sign, leading zeros and white space around it, and nothing else.
pub proof fn law_counter_files_hold_numbers(content: Seq<char>, n: u64)
    ensures
        counter_value(content) == Some(n) <==> holds_number(content, n as nat),
{
    if holds_number(content, n as nat) {
        let (before, sign, zeros, after) = choose|
            before: Seq<char>,
            sign: Seq<char>,
            zeros: Seq<char>,
            after: Seq<char>,
        | made_of(content, n as nat, before, sign, zeros, after);
        let digits = zeros + decimal_text(n as nat);
        let text = sign + digits;
        lemma_blank(before);
        lemma_blank(after);
        lemma_decimal_text(n as nat);
        lemma_leading_zeros(zeros, decimal_text(n as nat));
        assert(content =~= before + (text + after));
        lemma_trim_start_blank(before, text + after);
        assert forall|i: int| 0 <= i < digits.len() implies '0' <= #[trigger] digits[i] <= '9' by {
            if i >= zeros.len() {
                assert(digits[i] == decimal_text(n as nat)[i - zeros.len()]);
            }
        }
        assert((text + after)[0] == text[0]);
        assert(text[0] == '+' || text[0] == digits[0]);
        assert(trim_start(text + after) == text + after);
        lemma_trim_end_blank(text, after);
        assert(text.last() == digits[digits.len() - 1]);
        assert(trim_end(text) == text);
        assert(without_plus(text) =~= digits);
    }
    if counter_value(content) == Some(n) {
        let before = lemma_trimmed_start(content);
        let rest = trim_start(content);
        let after = lemma_trimmed_end(rest);
        let text = trim_end(rest);
        let digits = without_plus(text);
        let sign = if text.len() > 0 && text[0] == '+' { seq!['+'] } else { Seq::empty() };
        let zeros = lemma_digits_are_text(digits);
        lemma_blank(before);
        lemma_blank(after);
        assert(text =~= sign + digits);
        assert(content =~= before + sign + zeros + decimal_text(n as nat) + after);
        assert(made_of(content, n as nat, before, sign, zeros, after));
    }
}

/// A number and a line break, as the kernel writes a counter, hold that number.
pub proof fn law_written_number_is_held(n: u64)
    ensures
        holds_number(decimal_text(n as nat).push('\n'), n as nat),
        counter_value(decimal_text(n as nat).push('\n')) == Some(n),
{
    let none = Seq::<char>::empty();
    let content = decimal_text(n as nat).push('\n');
    assert(content =~= none + none + none + decimal_text(n as nat) + seq!['\n']);
    assert(made_of(content, n as nat, none, none, none, seq!['\n']));
    law_counter_files_hold_numbers(content, n);
}

/// A content holds one number at most.
pub proof fn law_held_number_is_unique(content: Seq<char>, n: u64, m: u64)
    requires
        holds_number(content, n as nat),
        holds_number(content, m as nat),
    ensures
        n == m,
{
    law_counter_files_hold_numbers(content, n);
    law_counter_files_hold_numbers(content, m);
}

/// Added to the earlier reading, the change of a counter gives the later one; a counter that reads
/// less than before has changed by its reading.
pub proof fn law_change_of_counter(current: u64, previous: u64)
    ensures
        previous <= current ==> previous + counter_delta(current, previous) == current,
        current < previous ==> counter_delta(current, previous) == current,
{
}

/// As an integer, a gauge value is the change itself up to the largest value of a gauge, and from
/// there on the change less 2^64.
pub proof fn law_gauge_value_is_the_change(delta: u64)
    ensures
        delta <= 0x7fff_ffff_ffff_ffff ==> gauge_value(delta) as int == delta as int,
        delta > 0x7fff_ffff_ffff_ffff ==> gauge_value(delta) as int == delta
            - 0x1_0000_0000_0000_0000,
{
}

} // verus!
