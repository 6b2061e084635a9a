//! Jump labels: the key sequences offered for jump targets before and after
//! the cursor.
//!
//! The built-in labels are typed with one hand: those for targets before the
//! cursor with the left hand, those for targets after it with the right hand.
//! A hand has fourteen keys: five on the top row (indices `0..5`), four on
//! the home row (`5..9`) and five on the bottom row (`9..14`); each key sits in
//! one of five columns. Two keys typed one after the other are never different
//! keys of the same column. The labels, in the order in which they are handed
//! out, are
//! - each home-row key alone;
//! - each top-row key followed by a home- or bottom-row key;
//! - each of three bottom-row keys followed by a top- or home-row key and one
//!   more key;
//! - each of the two other bottom-row keys followed by a top- or home-row key
//!   and two more keys.
//! The first key of a label thus tells how long the label is.

use vstd::prelude::*;

verus! {

/// A list of jump labels, in the order in which they are handed out.
pub type JumpLabelSetting = Vec<String>;

/// The text of each label of a list, as sequences of characters.
pub open spec fn label_texts(labels: Seq<&str>) -> Seq<Seq<char>> {
    labels.map_values(|label: &str| label@)
}

/// Turns a list of label literals into owned strings, keeping their order.
pub fn jump_setting_from_strings(input: &[&str]) -> (labels: JumpLabelSetting)
    ensures
        labels.deep_view() == label_texts(input@),
{
    let mut labels: JumpLabelSetting = Vec::new();
    let mut i: usize = 0;
    while i < input.len()
        invariant
            i <= input@.len(),
            labels@.len() == i,
            forall|j: int| 0 <= j < i ==> #[trigger] labels@[j]@ == input@[j]@,
        decreases input@.len() - i,
    {
        labels.push(String::from_str(input[i]));
        i = i + 1;
    }
    assert(labels.deep_view() =~= label_texts(input@));
    labels
}

/// The number of keys of a hand.
pub const HAND_KEY_COUNT: usize = 14;

/// The left hand's keys (Colemak): top row, home row, bottom row.
pub const LEFT_HAND_KEYS: [&'static str; 14] = [
    "q", "w", "f", "p", "g", "a", "r", "s", "t", "z", "x", "c", "v", "b",
];

/// The column of each of the left hand's keys.
pub const LEFT_HAND_COLUMNS: [u8; 14] = [0, 1, 2, 3, 4, 0, 1, 2, 3, 0, 1, 2, 3, 4];

/// The left-hand bottom-row keys that start labels of three keys.
pub const LEFT_HAND_THREE_KEY_STARTS: [usize; 3] = [9, 12, 13];

/// The left-hand bottom-row keys that start labels of four keys.
pub const LEFT_HAND_FOUR_KEY_STARTS: [usize; 2] = [10, 11];

/// The right hand's keys (Colemak): top row, home row, bottom row.
pub const RIGHT_HAND_KEYS: [&'static str; 14] = [
    "j", "l", "u", "y", ";", "n", "e", "i", "o", "k", "m", ",", ".", "/",
];

/// The column of each of the right hand's keys.
pub const RIGHT_HAND_COLUMNS: [u8; 14] = [0, 1, 2, 3, 4, 1, 2, 3, 4, 0, 1, 2, 3, 4];

/// The right-hand bottom-row keys that start labels of three keys.
pub const RIGHT_HAND_THREE_KEY_STARTS: [usize; 3] = [9, 10, 13];

/// The right-hand bottom-row keys that start labels of four keys.
pub const RIGHT_HAND_FOUR_KEY_STARTS: [usize; 2] = [11, 12];

/// Single-key labels: one home-row key.
pub const ONE_KEY_RANGES: [(usize, usize); 1] = [(5, 9)];

/// Two-key labels: a top-row key, then a home- or bottom-row key.
pub const TWO_KEY_RANGES: [(usize, usize); 2] = [(0, 5), (5, 14)];

/// After the first key of a three-key label: a top- or home-row key, then any key.
pub const THREE_KEY_RANGES: [(usize, usize); 2] = [(0, 9), (0, 14)];

/// After the first key of a four-key label: a top- or home-row key, then two keys.
pub const FOUR_KEY_RANGES: [(usize, usize); 3] = [(0, 9), (0, 14), (0, 14)];

/// Whether `key` may be typed after the keys of `prefix`: it may start a
/// label, repeat the previous key, or lie in another column than it.
pub open spec fn may_follow(columns: Seq<u8>, prefix: Seq<int>, key: int) -> bool {
    prefix.len() == 0 || prefix.last() == key || columns[prefix.last()] != columns[key]
}

/// The labels (as key indices) that extend `prefix` with one key from each
/// of the index ranges, in order, each key allowed after the one before it.
pub open spec fn completions(columns: Seq<u8>, prefix: Seq<int>, ranges: Seq<(usize, usize)>) -> Seq<
    Seq<int>,
>
    decreases ranges.len(), 0int,
{
    if ranges.len() == 0 {
        seq![prefix]
    } else {
        completions_from(columns, prefix, ranges[0].0 as int, ranges[0].1 as int, ranges.drop_first())
    }
}

/// The completions of `prefix` whose next key lies in `key..end`.
pub open spec fn completions_from(
    columns: Seq<u8>,
    prefix: Seq<int>,
    key: int,
    end: int,
    rest: Seq<(usize, usize)>,
) -> Seq<Seq<int>>
    decreases rest.len(), end - key + 1,
{
    if key >= end {
        seq![]
    } else {
        let here = if may_follow(columns, prefix, key) {
            completions(columns, prefix.push(key), rest)
        } else {
            seq![]
        };
        here + completions_from(columns, prefix, key + 1, end, rest)
    }
}

/// The completions of each of the given first keys, in order.
pub open spec fn started_completions(
    columns: Seq<u8>,
    starts: Seq<usize>,
    ranges: Seq<(usize, usize)>,
) -> Seq<Seq<int>>
    decreases starts.len(),
{
    if starts.len() == 0 {
        seq![]
    } else {
        completions(columns, seq![starts[0] as int], ranges) + started_completions(
            columns,
            starts.drop_first(),
            ranges,
        )
    }
}

/// All labels of a hand, as key indices, in the order in which they are handed out.
pub open spec fn hand_labels(
    columns: Seq<u8>,
    three_key_starts: Seq<usize>,
    four_key_starts: Seq<usize>,
) -> Seq<Seq<int>> {
    completions(columns, seq![], ONE_KEY_RANGES@) + completions(columns, seq![], TWO_KEY_RANGES@)
        + started_completions(columns, three_key_starts, THREE_KEY_RANGES@) + started_completions(
        columns,
        four_key_starts,
        FOUR_KEY_RANGES@,
    )
}

/// The text of a label given as key indices.
pub open spec fn key_text(keys: Seq<&str>, label: Seq<int>) -> Seq<char>
    decreases label.len(),
{
    if label.len() == 0 {
        seq![]
    } else {
        key_text(keys, label.drop_last()) + keys[label.last()]@
    }
}

/// The texts of labels given as key indices.
pub open spec fn key_texts(keys: Seq<&str>, labels: Seq<Seq<int>>) -> Seq<Seq<char>> {
    labels.map_values(|label: Seq<int>| key_text(keys, label))
}

/// The built-in labels for targets before the cursor.
pub open spec fn screen_before_labels() -> Seq<Seq<char>> {
    key_texts(
        LEFT_HAND_KEYS@,
        hand_labels(LEFT_HAND_COLUMNS@, LEFT_HAND_THREE_KEY_STARTS@, LEFT_HAND_FOUR_KEY_STARTS@),
    )
}

/// The built-in labels for targets after the cursor.
pub open spec fn screen_after_labels() -> Seq<Seq<char>> {
    key_texts(
        RIGHT_HAND_KEYS@,
        hand_labels(RIGHT_HAND_COLUMNS@, RIGHT_HAND_THREE_KEY_STARTS@, RIGHT_HAND_FOUR_KEY_STARTS@),
    )
}

proof fn lemma_key_texts_concat(keys: Seq<&str>, a: Seq<Seq<int>>, b: Seq<Seq<int>>)
    ensures
        key_texts(keys, a + b) == key_texts(keys, a) + key_texts(keys, b),
{
    assert(key_texts(keys, a + b) =~= key_texts(keys, a) + key_texts(keys, b));
}

/// The ranges of a hand, with keys below the hand's key count.
pub open spec fn ranges_fit(ranges: Seq<(usize, usize)>) -> bool {
    forall|r: int| 0 <= r < ranges.len() ==> #[trigger] ranges[r].1 <= HAND_KEY_COUNT
}

/// Appends the texts of the completions of `prefix` over `ranges[from..]`.
fn push_completions(
    out: &mut JumpLabelSetting,
    keys: &[&str],
    columns: &[u8],
    prefix_text: &String,
    last: Option<usize>,
    ranges: &[(usize, usize)],
    from: usize,
    Ghost(prefix): Ghost<Seq<int>>,
)
    requires
        keys@.len() == HAND_KEY_COUNT,
        columns@.len() == HAND_KEY_COUNT,
        ranges_fit(ranges@),
        from <= ranges@.len(),
        prefix_text@ == key_text(keys@, prefix),
        match last {
            Some(k) => prefix.len() > 0 && prefix.last() == k && k < HAND_KEY_COUNT,
            None => prefix.len() == 0,
        },
    ensures
        final(out).deep_view() == old(out).deep_view() + key_texts(
            keys@,
            completions(columns@, prefix, ranges@.subrange(from as int, ranges@.len() as int)),
        ),
    decreases ranges@.len() - from, 0int,
{
    let ghost rs = ranges@.subrange(from as int, ranges@.len() as int);
    if from == ranges.len() {
        let ghost before = out.deep_view();
        out.push(prefix_text.clone());
        assert(out.deep_view() =~= before + key_texts(keys@, seq![prefix]));
    } else {
        let (start, end) = ranges[from];
        assert(rs.drop_first() =~= ranges@.subrange(from + 1, ranges@.len() as int));
        push_completions_from(out, keys, columns, prefix_text, last, ranges, from + 1, start, end, Ghost(prefix));
    }
}

/// Appends the texts of the completions of `prefix` whose next key lies in
/// `key..end`, continuing with `ranges[from..]`.
fn push_completions_from(
    out: &mut JumpLabelSetting,
    keys: &[&str],
    columns: &[u8],
    prefix_text: &String,
    last: Option<usize>,
    ranges: &[(usize, usize)],
    from: usize,
    key: usize,
    end: usize,
    Ghost(prefix): Ghost<Seq<int>>,
)
    requires
        keys@.len() == HAND_KEY_COUNT,
        columns@.len() == HAND_KEY_COUNT,
        ranges_fit(ranges@),
        from <= ranges@.len(),
        end <= HAND_KEY_COUNT,
        prefix_text@ == key_text(keys@, prefix),
        match last {
            Some(k) => prefix.len() > 0 && prefix.last() == k && k < HAND_KEY_COUNT,
            None => prefix.len() == 0,
        },
    ensures
        final(out).deep_view() == old(out).deep_view() + key_texts(
            keys@,
            completions_from(
                columns@,
                prefix,
                key as int,
                end as int,
                ranges@.subrange(from as int, ranges@.len() as int),
            ),
        ),
    decreases ranges@.len() - from, end - key + 1,
{
    let ghost rest = ranges@.subrange(from as int, ranges@.len() as int);
    if key >= end {
        assert(out.deep_view() =~= out.deep_view() + key_texts(keys@, seq![]));
        return;
    }
    let ghost before = out.deep_view();
    let allowed = match last {
        Some(k) => k == key || columns[k] != columns[key],
        None => true,
    };
    let ghost here: Seq<Seq<int>> = if allowed {
        completions(columns@, prefix.push(key as int), rest)
    } else {
        seq![]
    };
    if allowed {
        let mut text = prefix_text.clone();
        text.append(keys[key]);
        assert(key_text(keys@, prefix.push(key as int)) == key_text(keys@, prefix) + keys@[key as int]@) by {
            assert(prefix.push(key as int).drop_last() =~= prefix);
        }
        push_completions(out, keys, columns, &text, Some(key), ranges, from, Ghost(prefix.push(key as int)));
    } else {
        assert(out.deep_view() =~= before + key_texts(keys@, here));
    }
    let ghost middle = out.deep_view();
    push_completions_from(out, keys, columns, prefix_text, last, ranges, from, key + 1, end, Ghost(prefix));
    proof {
        let tail = completions_from(columns@, prefix, key + 1, end as int, rest);
        lemma_key_texts_concat(keys@, here, tail);
        assert(completions_from(columns@, prefix, key as int, end as int, rest) == here + tail);
    }
}

/// Appends the texts of the completions over `ranges` of each first key in
/// `starts[from..]`, in order.
fn push_started_completions(
    out: &mut JumpLabelSetting,
    keys: &[&str],
    columns: &[u8],
    starts: &[usize],
    from: usize,
    ranges: &[(usize, usize)],
)
    requires
        keys@.len() == HAND_KEY_COUNT,
        columns@.len() == HAND_KEY_COUNT,
        ranges_fit(ranges@),
        from <= starts@.len(),
        forall|i: int| 0 <= i < starts@.len() ==> #[trigger] starts@[i] < HAND_KEY_COUNT,
    ensures
        final(out).deep_view() == old(out).deep_view() + key_texts(
            keys@,
            started_completions(
                columns@,
                starts@.subrange(from as int, starts@.len() as int),
                ranges@,
            ),
        ),
    decreases starts@.len() - from,
{
    let ghost rest = starts@.subrange(from as int, starts@.len() as int);
    if from == starts.len() {
        assert(out.deep_view() =~= out.deep_view() + key_texts(keys@, seq![]));
        return;
    }
    let start = starts[from];
    let text = String::from_str(keys[start]);
    let ghost prefix = seq![start as int];
    assert(key_text(keys@, prefix) == keys@[start as int]@) by {
        assert(prefix.drop_last() =~= Seq::<int>::empty());
        assert(key_text(keys@, prefix.drop_last()) == Seq::<char>::empty());
        assert(Seq::<char>::empty() + keys@[start as int]@ =~= keys@[start as int]@);
    }
    assert(ranges@.subrange(0, ranges@.len() as int) =~= ranges@);
    push_completions(out, keys, columns, &text, Some(start), ranges, 0, Ghost(prefix));
    push_started_completions(out, keys, columns, starts, from + 1, ranges);
    proof {
        assert(rest.drop_first() =~= starts@.subrange(from + 1, starts@.len() as int));
        lemma_key_texts_concat(
            keys@,
            completions(columns@, prefix, ranges@),
            started_completions(columns@, rest.drop_first(), ranges@),
        );
    }
}

/// The labels of a hand, in the order in which they are handed out.
fn hand_label_setting(
    keys: &[&str],
    columns: &[u8],
    three_key_starts: &[usize],
    four_key_starts: &[usize],
) -> (labels: JumpLabelSetting)
    requires
        keys@.len() == HAND_KEY_COUNT,
        columns@.len() == HAND_KEY_COUNT,
        forall|i: int| 0 <= i < three_key_starts@.len() ==> #[trigger] three_key_starts@[i] < HAND_KEY_COUNT,
        forall|i: int| 0 <= i < four_key_starts@.len() ==> #[trigger] four_key_starts@[i] < HAND_KEY_COUNT,
    ensures
        labels.deep_view() == key_texts(
            keys@,
            hand_labels(columns@, three_key_starts@, four_key_starts@),
        ),
{
    let mut labels: JumpLabelSetting = Vec::new();
    let empty = String::new();
    let ghost none: Seq<int> = seq![];
    assert(ONE_KEY_RANGES@.subrange(0, 1) =~= ONE_KEY_RANGES@);
    assert(TWO_KEY_RANGES@.subrange(0, 2) =~= TWO_KEY_RANGES@);
    assert(three_key_starts@.subrange(0, three_key_starts@.len() as int) =~= three_key_starts@);
    assert(four_key_starts@.subrange(0, four_key_starts@.len() as int) =~= four_key_starts@);
    let ghost start = labels.deep_view();
    push_completions(&mut labels, keys, columns, &empty, None, &ONE_KEY_RANGES, 0, Ghost(none));
    push_completions(&mut labels, keys, columns, &empty, None, &TWO_KEY_RANGES, 0, Ghost(none));
    push_started_completions(&mut labels, keys, columns, three_key_starts, 0, &THREE_KEY_RANGES);
    push_started_completions(&mut labels, keys, columns, four_key_starts, 0, &FOUR_KEY_RANGES);
    proof {
        let a = completions(columns@, none, ONE_KEY_RANGES@);
        let b = completions(columns@, none, TWO_KEY_RANGES@);
        let c = started_completions(columns@, three_key_starts@, THREE_KEY_RANGES@);
        let d = started_completions(columns@, four_key_starts@, FOUR_KEY_RANGES@);
        lemma_key_texts_concat(keys@, a, b);
        lemma_key_texts_concat(keys@, a + b, c);
        lemma_key_texts_concat(keys@, a + b + c, d);
        assert(start =~= Seq::<Seq<char>>::empty());
    }
    labels
}

/// The labels used for targets before the cursor when the settings name none.
pub fn default_screen_before() -> (labels: JumpLabelSetting)
    ensures
        labels.deep_view() == screen_before_labels(),
{
    hand_label_setting(
        &LEFT_HAND_KEYS,
        &LEFT_HAND_COLUMNS,
        &LEFT_HAND_THREE_KEY_STARTS,
        &LEFT_HAND_FOUR_KEY_STARTS,
    )
}

/// The labels used for targets after the cursor when the settings name none.
pub fn default_screen_after() -> (labels: JumpLabelSetting)
    ensures
        labels.deep_view() == screen_after_labels(),
{
    hand_label_setting(
        &RIGHT_HAND_KEYS,
        &RIGHT_HAND_COLUMNS,
        &RIGHT_HAND_THREE_KEY_STARTS,
        &RIGHT_HAND_FOUR_KEY_STARTS,
    )
}

/// Labels for jump targets on screen, before and after the cursor.
#[derive(Clone, Debug, PartialEq)]
pub struct JumpLabelSettingsContent {
    pub screen_before: JumpLabelSetting,
    pub screen_after: JumpLabelSetting,
}

impl Default for JumpLabelSettingsContent {
    fn default() -> (content: Self)
        ensures
            content.screen_before.deep_view() == screen_before_labels(),
            content.screen_after.deep_view() == screen_after_labels(),
    {
        Self { screen_before: default_screen_before(), screen_after: default_screen_after() }
    }
}

} // verus!
