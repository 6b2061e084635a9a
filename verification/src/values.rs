//! Setting values with their own merge rules, and delays in milliseconds.

use vstd::prelude::*;

use crate::merge_from::MergeFrom;
use vstd::std_specs::convert::IntoSpec;

verus! {

/// A list setting that can only accumulate new values: a later layer adds its
/// entries after the ones already present and never removes any.
#[derive(Debug, Clone, PartialEq)]
pub struct ExtendingVec<T>(pub Vec<T>);

impl<T> Default for ExtendingVec<T> {
    fn default() -> (list: Self)
        ensures
            list.0@ == Seq::<T>::empty(),
    {
        ExtendingVec(Vec::new())
    }
}

impl<T> Into<Vec<T>> for ExtendingVec<T> {
    fn into(self) -> Vec<T> {
        self.0
    }
}

impl<T> vstd::std_specs::convert::IntoSpecImpl<Vec<T>> for ExtendingVec<T> {
    open spec fn obeys_into_spec() -> bool {
        true
    }

    open spec fn into_spec(self) -> Vec<T> {
        self.0
    }
}

impl<T> From<Vec<T>> for ExtendingVec<T> {
    fn from(vec: Vec<T>) -> (list: Self)
        ensures
            list.0 == vec,
    {
        ExtendingVec(vec)
    }
}

impl<T> vstd::std_specs::convert::FromSpecImpl<Vec<T>> for ExtendingVec<T> {
    open spec fn obeys_from_spec() -> bool {
        true
    }

    open spec fn from_spec(vec: Vec<T>) -> Self {
        ExtendingVec(vec)
    }
}

impl<T: Clone> MergeFrom for ExtendingVec<T> {
    /// The entries already present stay first and unchanged; the source's
    /// entries follow, each a clone of the source's entry at that place.
    open spec fn merge_result(before: Self, source: Self, after: Self) -> bool {
        &&& after.0@.len() == before.0@.len() + source.0@.len()
        &&& forall|i: int| 0 <= i < before.0@.len() ==> #[trigger] after.0@[i] == before.0@[i]
        &&& forall|i: int|
            before.0@.len() <= i < after.0@.len() ==> cloned::<T>(
                source.0@[i - before.0@.len()],
                #[trigger] after.0@[i],
            )
    }

    fn merge_from(&mut self, other: &Self) {
        self.0.extend_from_slice(other.0.as_slice());
    }
}

/// A boolean setting that can only ever be switched on: once a layer sets it
/// to `true`, later layers that set it to `false` are ignored.
#[derive(Debug, Copy, Clone, PartialEq)]
pub struct SaturatingBool(pub bool);

impl Default for SaturatingBool {
    fn default() -> (flag: Self)
        ensures
            flag.0 == false,
    {
        SaturatingBool(false)
    }
}

impl From<bool> for SaturatingBool {
    fn from(value: bool) -> (flag: Self)
        ensures
            flag.0 == value,
    {
        SaturatingBool(value)
    }
}

impl vstd::std_specs::convert::FromSpecImpl<bool> for SaturatingBool {
    open spec fn obeys_from_spec() -> bool {
        true
    }

    open spec fn from_spec(value: bool) -> Self {
        SaturatingBool(value)
    }
}

impl From<SaturatingBool> for bool {
    fn from(value: SaturatingBool) -> (b: bool)
        ensures
            b == value.0,
    {
        value.0
    }
}

impl vstd::std_specs::convert::FromSpecImpl<SaturatingBool> for bool {
    open spec fn obeys_from_spec() -> bool {
        true
    }

    open spec fn from_spec(value: SaturatingBool) -> bool {
        value.0
    }
}

impl MergeFrom for SaturatingBool {
    /// The flag is on afterwards exactly when it was on before or the source
    /// turns it on.
    open spec fn merge_result(before: Self, source: Self, after: Self) -> bool {
        after.0 == (before.0 || source.0)
    }

    fn merge_from(&mut self, other: &Self) {
        self.0 = self.0 || other.0;
    }
}

/// Law: a list absorbs a later layer by appending to it; what was there stays
/// first and unchanged, and nothing is ever dropped.
pub proof fn extending_vec_only_accumulates<T: Clone>(
    before: ExtendingVec<T>,
    source: ExtendingVec<T>,
    after: ExtendingVec<T>,
)
    requires
        ExtendingVec::<T>::merge_result(before, source, after),
    ensures
        after.0@.len() >= before.0@.len(),
        after.0@.subrange(0, before.0@.len() as int) == before.0@,
{
    assert(after.0@.subrange(0, before.0@.len() as int) =~= before.0@);
}

/// Law: merging a layer with an empty list leaves the list as it was.
pub proof fn extending_vec_empty_layer_changes_nothing<T: Clone>(
    before: ExtendingVec<T>,
    source: ExtendingVec<T>,
    after: ExtendingVec<T>,
)
    requires
        ExtendingVec::<T>::merge_result(before, source, after),
        source.0@.len() == 0,
    ensures
        after.0@ == before.0@,
{
    assert(after.0@ =~= before.0@);
}

/// Law: layers merged one after the other contribute their entries in the
/// order of the layers: first the list's own, then the first layer's, then
/// the second layer's.
pub proof fn extending_vec_layers_keep_their_order<T: Clone>(
    list: ExtendingVec<T>,
    first: ExtendingVec<T>,
    second: ExtendingVec<T>,
    once: ExtendingVec<T>,
    twice: ExtendingVec<T>,
)
    requires
        ExtendingVec::<T>::merge_result(list, first, once),
        ExtendingVec::<T>::merge_result(once, second, twice),
    ensures
        twice.0@.len() == list.0@.len() + first.0@.len() + second.0@.len(),
        forall|i: int| 0 <= i < list.0@.len() ==> #[trigger] twice.0@[i] == list.0@[i],
        forall|i: int|
            0 <= i < first.0@.len() ==> cloned::<T>(
                first.0@[i],
                #[trigger] twice.0@[list.0@.len() + i],
            ),
        forall|i: int|
            0 <= i < second.0@.len() ==> cloned::<T>(
                second.0@[i],
                #[trigger] twice.0@[list.0@.len() + first.0@.len() + i],
            ),
{
    assert forall|i: int| 0 <= i < first.0@.len() implies cloned::<T>(
        first.0@[i],
        #[trigger] twice.0@[list.0@.len() + i],
    ) by {
        let k = list.0@.len() + i;
        assert(twice.0@[k] == once.0@[k]);
        assert(cloned::<T>(first.0@[k - list.0@.len()], once.0@[k]));
    }
    assert forall|i: int| 0 <= i < second.0@.len() implies cloned::<T>(
        second.0@[i],
        #[trigger] twice.0@[list.0@.len() + first.0@.len() + i],
    ) by {
        let k = list.0@.len() + first.0@.len() + i;
        assert(cloned::<T>(second.0@[k - once.0@.len()], twice.0@[k]));
    }
}

/// Law: turning a vector into an `ExtendingVec` and back gives the vector.
pub proof fn extending_vec_conversions_round_trip<T>(vec: Vec<T>, list: ExtendingVec<T>)
    ensures
        <ExtendingVec<T> as IntoSpec<Vec<T>>>::into_spec(
            <ExtendingVec<T> as vstd::std_specs::convert::FromSpec<Vec<T>>>::from_spec(vec),
        ) == vec,
        <ExtendingVec<T> as vstd::std_specs::convert::FromSpec<Vec<T>>>::from_spec(
            <ExtendingVec<T> as IntoSpec<Vec<T>>>::into_spec(list),
        ) == list,
{
}

/// Law: a flag that is on stays on whatever layer is merged into it, a layer
/// that turns it on always does, and a layer that leaves it off changes nothing.
pub proof fn saturating_bool_only_switches_on(
    before: SaturatingBool,
    source: SaturatingBool,
    after: SaturatingBool,
)
    requires
        SaturatingBool::merge_result(before, source, after),
    ensures
        before.0 ==> after.0,
        source.0 ==> after.0,
        !source.0 ==> after == before,
{
}

/// Law: the order in which layers are merged into a flag does not matter.
pub proof fn saturating_bool_layer_order_is_irrelevant(
    flag: SaturatingBool,
    a: SaturatingBool,
    b: SaturatingBool,
    with_a: SaturatingBool,
    with_a_then_b: SaturatingBool,
    with_b: SaturatingBool,
    with_b_then_a: SaturatingBool,
)
    requires
        SaturatingBool::merge_result(flag, a, with_a),
        SaturatingBool::merge_result(with_a, b, with_a_then_b),
        SaturatingBool::merge_result(flag, b, with_b),
        SaturatingBool::merge_result(with_b, a, with_b_then_a),
    ensures
        with_a_then_b == with_b_then_a,
{
}

/// Law: merging two layers one by one gives what merging their merge gives,
/// and merging the same layer twice gives what merging it once gives.
pub proof fn saturating_bool_layers_combine(
    flag: SaturatingBool,
    a: SaturatingBool,
    b: SaturatingBool,
    with_a: SaturatingBool,
    with_a_then_b: SaturatingBool,
    a_with_b: SaturatingBool,
    with_both: SaturatingBool,
    with_a_again: SaturatingBool,
)
    requires
        SaturatingBool::merge_result(flag, a, with_a),
        SaturatingBool::merge_result(with_a, b, with_a_then_b),
        SaturatingBool::merge_result(a, b, a_with_b),
        SaturatingBool::merge_result(flag, a_with_b, with_both),
        SaturatingBool::merge_result(with_a, a, with_a_again),
    ensures
        with_a_then_b == with_both,
        with_a_again == with_a,
{
}

/// Law: converting a `bool` to a `SaturatingBool` and back gives the `bool`,
/// and the other way round.
pub proof fn saturating_bool_conversions_round_trip(value: bool, flag: SaturatingBool)
    ensures
        <bool as vstd::std_specs::convert::FromSpec<SaturatingBool>>::from_spec(
            <SaturatingBool as vstd::std_specs::convert::FromSpec<bool>>::from_spec(value),
        ) == value,
        <SaturatingBool as vstd::std_specs::convert::FromSpec<bool>>::from_spec(
            <bool as vstd::std_specs::convert::FromSpec<SaturatingBool>>::from_spec(flag),
        ) == flag,
{
}

/// A delay in milliseconds.
#[derive(Copy, Clone, Default, Debug, PartialEq, Eq, PartialOrd, Ord)]
pub struct DelayMs(pub u64);

impl From<u64> for DelayMs {
    fn from(n: u64) -> (delay: Self)
        ensures
            delay.0 == n,
    {
        Self(n)
    }
}

impl vstd::std_specs::convert::FromSpecImpl<u64> for DelayMs {
    open spec fn obeys_from_spec() -> bool {
        true
    }

    open spec fn from_spec(n: u64) -> Self {
        DelayMs(n)
    }
}

/// The characters of the decimal digits, in order of value.
pub open spec fn digit_chars() -> Seq<char> {
    seq!['0', '1', '2', '3', '4', '5', '6', '7', '8', '9']
}

/// The decimal notation of `n`: its digits, most significant first, with no
/// leading zero (zero itself is written `0`).
pub open spec fn decimal_text(n: nat) -> Seq<char>
    decreases n,
{
    if n < 10 {
        seq![digit_chars()[n as int]]
    } else {
        decimal_text(n / 10).push(digit_chars()[(n % 10) as int])
    }
}

/// How a delay is shown: its number of milliseconds in decimal, then `ms`.
pub open spec fn delay_text(delay: DelayMs) -> Seq<char> {
    decimal_text(delay.0 as nat) + seq!['m', 's']
}

/// One-character strings for the decimal digits, in order of value.
const DECIMAL_DIGITS: [&'static str; 10] = ["0", "1", "2", "3", "4", "5", "6", "7", "8", "9"];

proof fn lemma_decimal_digit_strings()
    ensures
        forall|d: int| 0 <= d < 10 ==> #[trigger] DECIMAL_DIGITS@[d]@ == seq![digit_chars()[d]],
{
    reveal_strlit("0");
    reveal_strlit("1");
    reveal_strlit("2");
    reveal_strlit("3");
    reveal_strlit("4");
    reveal_strlit("5");
    reveal_strlit("6");
    reveal_strlit("7");
    reveal_strlit("8");
    reveal_strlit("9");
    assert forall|d: int| 0 <= d < 10 implies #[trigger] DECIMAL_DIGITS@[d]@ == seq![
        digit_chars()[d],
    ] by {
        if d == 0 {
        } else if d == 1 {
        } else if d == 2 {
        } else if d == 3 {
        } else if d == 4 {
        } else if d == 5 {
        } else if d == 6 {
        } else if d == 7 {
        } else if d == 8 {
        } else {
        }
    }
}

/// Appends the decimal notation of `n` to `text`.
fn push_decimal(text: &mut String, n: u64)
    ensures
        final(text)@ == old(text)@ + decimal_text(n as nat),
    decreases n,
{
    proof {
        lemma_decimal_digit_strings();
    }
    if n >= 10 {
        push_decimal(text, n / 10);
    }
    let digit: usize = (n % 10) as usize;
    text.append(DECIMAL_DIGITS[digit]);
    assert(decimal_text(n as nat) == if n < 10 {
        seq![digit_chars()[n as int]]
    } else {
        decimal_text((n / 10) as nat).push(digit_chars()[(n % 10) as int])
    });
}

proof fn lemma_decimal_text_length(n: nat)
    ensures
        decimal_text(n).len() >= 1,
        n >= 10 ==> decimal_text(n).len() >= 2,
    decreases n,
{
    if n >= 10 {
        lemma_decimal_text_length(n / 10);
    }
}

proof fn lemma_digit_chars_distinct()
    ensures
        forall|i: int, j: int|
            0 <= i < 10 && 0 <= j < 10 && #[trigger] digit_chars()[i] == #[trigger] digit_chars()[j]
                ==> i == j,
{
    let d = digit_chars();
    assert(d[0] == '0' && d[1] == '1' && d[2] == '2' && d[3] == '3' && d[4] == '4');
    assert(d[5] == '5' && d[6] == '6' && d[7] == '7' && d[8] == '8' && d[9] == '9');
}

proof fn lemma_decimal_text_injective(a: nat, b: nat)
    requires
        decimal_text(a) == decimal_text(b),
    ensures
        a == b,
    decreases a,
{
    lemma_decimal_text_length(a / 10);
    lemma_decimal_text_length(b / 10);
    lemma_digit_chars_distinct();
    if a < 10 && b < 10 {
        assert(decimal_text(a)[0] == digit_chars()[a as int]);
        assert(decimal_text(b)[0] == digit_chars()[b as int]);
    } else if a < 10 {
        lemma_decimal_text_length(b);
    } else if b < 10 {
        lemma_decimal_text_length(a);
    } else {
        let ta = decimal_text(a / 10);
        let tb = decimal_text(b / 10);
        assert(decimal_text(a).drop_last() =~= ta);
        assert(decimal_text(b).drop_last() =~= tb);
        lemma_decimal_text_injective(a / 10, b / 10);
        assert(decimal_text(a).last() == digit_chars()[(a % 10) as int]);
        assert(decimal_text(b).last() == digit_chars()[(b % 10) as int]);
        assert(a % 10 == b % 10);
        assert(a == 10 * (a / 10) + a % 10);
        assert(b == 10 * (b / 10) + b % 10);
    }
}

/// Whether `c` is one of the ASCII digits `0` to `9`.
pub open spec fn is_ascii_digit(c: char) -> bool {
    48 <= c as int <= 57
}

/// Whether `text` is a decimal numeral: one or more ASCII digits, with no
/// leading `0` unless the numeral is `0` itself.
pub open spec fn is_decimal_numeral(text: Seq<char>) -> bool {
    &&& text.len() >= 1
    &&& forall|i: int| 0 <= i < text.len() ==> is_ascii_digit(#[trigger] text[i])
    &&& text.len() > 1 ==> text[0] as int != 48
}

/// The number a string of ASCII digits stands for in base ten, each digit
/// worth its character code minus the code of `0`.
pub open spec fn numeral_value(text: Seq<char>) -> int
    decreases text.len(),
{
    if text.len() == 0 {
        0
    } else {
        numeral_value(text.drop_last()) * 10 + (text.last() as int - 48)
    }
}

proof fn lemma_digit_char_codes()
    ensures
        forall|d: int| 0 <= d < 10 ==> #[trigger] digit_chars()[d] as int == 48 + d,
{
    let c = digit_chars();
    assert(c[0] as int == 48 && c[1] as int == 49 && c[2] as int == 50 && c[3] as int == 51);
    assert(c[4] as int == 52 && c[5] as int == 53 && c[6] as int == 54 && c[7] as int == 55);
    assert(c[8] as int == 56 && c[9] as int == 57);
}

/// Law: the decimal notation of every number is a decimal numeral that reads
/// back as that number.
pub proof fn decimal_text_reads_back(n: nat)
    ensures
        is_decimal_numeral(decimal_text(n)),
        numeral_value(decimal_text(n)) == n,
        n >= 1 ==> decimal_text(n)[0] as int != 48,
    decreases n,
{
    lemma_digit_char_codes();
    let t = decimal_text(n);
    if n < 10 {
        assert(t[0] == digit_chars()[n as int]);
        assert(t.drop_last() =~= Seq::<char>::empty());
        assert(numeral_value(t.drop_last()) == 0);
        assert(t.last() as int == 48 + n);
    } else {
        let front = decimal_text(n / 10);
        decimal_text_reads_back(n / 10);
        let d = (n % 10) as int;
        assert(t == front.push(digit_chars()[d]));
        assert(t.drop_last() =~= front);
        assert(t.last() as int == 48 + d);
        assert(t[0] == front[0]);
        assert forall|i: int| 0 <= i < t.len() implies is_ascii_digit(#[trigger] t[i]) by {
            if i < front.len() {
                assert(t[i] == front[i]);
            }
        }
        assert(numeral_value(t) == numeral_value(front) * 10 + d);
        assert(n == (n / 10) * 10 + n % 10);
    }
}

/// Law: a delay is shown as the number of its milliseconds, written as a
/// decimal numeral, followed by the unit `ms`.
pub proof fn delay_text_is_milliseconds(delay: DelayMs)
    ensures
        delay_text(delay).len() >= 3,
        delay_text(delay).subrange(delay_text(delay).len() - 2, delay_text(delay).len() as int)
            == seq!['m', 's'],
        is_decimal_numeral(delay_text(delay).subrange(0, delay_text(delay).len() - 2)),
        numeral_value(delay_text(delay).subrange(0, delay_text(delay).len() - 2)) == delay.0,
{
    let digits = decimal_text(delay.0 as nat);
    decimal_text_reads_back(delay.0 as nat);
    let t = delay_text(delay);
    assert(t.subrange(t.len() - 2, t.len() as int) =~= seq!['m', 's']);
    assert(t.subrange(0, t.len() - 2) =~= digits);
}

/// Law: two different delays are never shown the same way.
pub proof fn delay_text_tells_delays_apart(a: DelayMs, b: DelayMs)
    requires
        delay_text(a) == delay_text(b),
    ensures
        a == b,
{
    let da = decimal_text(a.0 as nat);
    let db = decimal_text(b.0 as nat);
    assert(delay_text(a).subrange(0, delay_text(a).len() - 2) =~= da);
    assert(delay_text(b).subrange(0, delay_text(b).len() - 2) =~= db);
    lemma_decimal_text_injective(a.0 as nat, b.0 as nat);
}

impl DelayMs {
    /// The delay as it is shown to users, such as `250ms`.
    pub fn to_string(&self) -> (text: String)
        ensures
            text@ == delay_text(*self),
            text@.len() >= 3,
            text@.subrange(text@.len() - 2, text@.len() as int) == seq!['m', 's'],
            is_decimal_numeral(text@.subrange(0, text@.len() - 2)),
            numeral_value(text@.subrange(0, text@.len() - 2)) == self.0,
    {
        let mut text = String::new();
        push_decimal(&mut text, self.0);
        text.append("ms");
        proof {
            reveal_strlit("ms");
            delay_text_is_milliseconds(*self);
        }
        text
    }
}

} // verus!
