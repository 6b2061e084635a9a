//! Laws of the built-in jump labels: no label is the beginning of another,
//! so that typing a label always picks exactly one target; the lists for
//! targets before and after the cursor are equally long, and they share no key.

use vstd::prelude::*;

use crate::jump_labels::{
    completions, completions_from, hand_labels, screen_after_labels, screen_before_labels, key_text, key_texts, may_follow, ranges_fit,
    started_completions, FOUR_KEY_RANGES, HAND_KEY_COUNT, LEFT_HAND_COLUMNS,
    LEFT_HAND_FOUR_KEY_STARTS, LEFT_HAND_KEYS, LEFT_HAND_THREE_KEY_STARTS, ONE_KEY_RANGES,
    RIGHT_HAND_COLUMNS, RIGHT_HAND_FOUR_KEY_STARTS, RIGHT_HAND_KEYS, RIGHT_HAND_THREE_KEY_STARTS,
    THREE_KEY_RANGES, TWO_KEY_RANGES,
};

verus! {

/// The labels that extend `prefix` keep it, add one key per range, and take
/// that key from the range.
proof fn lemma_completions_shape(
    columns: Seq<u8>,
    prefix: Seq<int>,
    ranges: Seq<(usize, usize)>,
    i: int,
)
    requires
        0 <= i < completions(columns, prefix, ranges).len(),
    ensures
        completions(columns, prefix, ranges)[i].len() == prefix.len() + ranges.len(),
        completions(columns, prefix, ranges)[i].subrange(0, prefix.len() as int) == prefix,
        forall|t: int|
            0 <= t < ranges.len() ==> ranges[t].0 <= #[trigger] completions(
                columns,
                prefix,
                ranges,
            )[i][prefix.len() + t] < ranges[t].1,
    decreases ranges.len(), 0int,
{
    let l = completions(columns, prefix, ranges)[i];
    if ranges.len() == 0 {
        assert(l == prefix);
        assert(l.subrange(0, prefix.len() as int) =~= prefix);
    } else {
        let rest = ranges.drop_first();
        lemma_completions_from_shape(columns, prefix, ranges[0].0 as int, ranges[0].1 as int, rest, i);
        assert forall|t: int| 0 <= t < ranges.len() implies ranges[t].0 <= #[trigger] l[prefix.len() + t]
            < ranges[t].1 by {
            if t > 0 {
                assert(rest[t - 1] == ranges[t]);
                assert(l[prefix.len() + 1 + (t - 1)] == l[prefix.len() + t]);
            }
        }
    }
}

/// The labels that extend `prefix` with a next key from `key..end` keep the
/// prefix, take that next key from `key..end` and one key from each later range.
proof fn lemma_completions_from_shape(
    columns: Seq<u8>,
    prefix: Seq<int>,
    key: int,
    end: int,
    rest: Seq<(usize, usize)>,
    i: int,
)
    requires
        0 <= i < completions_from(columns, prefix, key, end, rest).len(),
    ensures
        completions_from(columns, prefix, key, end, rest)[i].len() == prefix.len() + 1 + rest.len(),
        completions_from(columns, prefix, key, end, rest)[i].subrange(0, prefix.len() as int)
            == prefix,
        key <= completions_from(columns, prefix, key, end, rest)[i][prefix.len() as int] < end,
        forall|t: int|
            0 <= t < rest.len() ==> rest[t].0 <= #[trigger] completions_from(
                columns,
                prefix,
                key,
                end,
                rest,
            )[i][prefix.len() + 1 + t] < rest[t].1,
    decreases rest.len(), end - key + 1,
{
    let all = completions_from(columns, prefix, key, end, rest);
    let l = all[i];
    let here = if may_follow(columns, prefix, key) {
        completions(columns, prefix.push(key), rest)
    } else {
        seq![]
    };
    let tail = completions_from(columns, prefix, key + 1, end, rest);
    assert(all == here + tail);
    if i < here.len() {
        let longer = prefix.push(key);
        lemma_completions_shape(columns, longer, rest, i);
        assert(l == here[i]);
        let front = l.subrange(0, longer.len() as int);
        assert(front == longer);
        assert(l[prefix.len() as int] == front[prefix.len() as int]);
        assert(l.subrange(0, prefix.len() as int) =~= front.subrange(0, prefix.len() as int));
        assert(longer.subrange(0, prefix.len() as int) =~= prefix);
    } else {
        lemma_completions_from_shape(columns, prefix, key + 1, end, rest, i - here.len());
        assert(l == tail[i - here.len()]);
    }
}

/// Two sequences without repeats, with no element in common, concatenate
/// to a sequence without repeats.
proof fn lemma_concat_no_duplicates<A>(a: Seq<A>, b: Seq<A>)
    requires
        a.no_duplicates(),
        b.no_duplicates(),
        forall|i: int, j: int| 0 <= i < a.len() && 0 <= j < b.len() ==> a[i] != b[j],
    ensures
        (a + b).no_duplicates(),
{
    let c = a + b;
    assert forall|i: int, j: int| 0 <= i < c.len() && 0 <= j < c.len() && i != j implies c[i]
        != c[j] by {
        if i < a.len() && j < a.len() {
        } else if i >= a.len() && j >= a.len() {
            assert(c[i] == b[i - a.len()]);
            assert(c[j] == b[j - a.len()]);
        } else if i < a.len() {
            assert(c[j] == b[j - a.len()]);
        } else {
            assert(c[i] == b[i - a.len()]);
        }
    }
}

/// No label extending a prefix is handed out twice.
proof fn lemma_completions_distinct(columns: Seq<u8>, prefix: Seq<int>, ranges: Seq<(usize, usize)>)
    ensures
        completions(columns, prefix, ranges).no_duplicates(),
    decreases ranges.len(), 0int,
{
    if ranges.len() > 0 {
        lemma_completions_from_distinct(
            columns,
            prefix,
            ranges[0].0 as int,
            ranges[0].1 as int,
            ranges.drop_first(),
        );
    }
}

proof fn lemma_completions_from_distinct(
    columns: Seq<u8>,
    prefix: Seq<int>,
    key: int,
    end: int,
    rest: Seq<(usize, usize)>,
)
    ensures
        completions_from(columns, prefix, key, end, rest).no_duplicates(),
    decreases rest.len(), end - key + 1,
{
    if key < end {
        let longer = prefix.push(key);
        let here = if may_follow(columns, prefix, key) {
            completions(columns, longer, rest)
        } else {
            seq![]
        };
        let tail = completions_from(columns, prefix, key + 1, end, rest);
        if may_follow(columns, prefix, key) {
            lemma_completions_distinct(columns, longer, rest);
        }
        lemma_completions_from_distinct(columns, prefix, key + 1, end, rest);
        assert forall|i: int, j: int| 0 <= i < here.len() && 0 <= j < tail.len() implies here[i]
            != tail[j] by {
            lemma_completions_shape(columns, longer, rest, i);
            lemma_completions_from_shape(columns, prefix, key + 1, end, rest, j);
            assert(here[i][prefix.len() as int] == here[i].subrange(0, longer.len() as int)[prefix.len() as int]);
        }
        lemma_concat_no_duplicates(here, tail);
    }
}

/// A label started by one of `starts` has one more key per range, its first
/// key is one of `starts`, and each later key lies in its range.
proof fn lemma_started_completions_shape(
    columns: Seq<u8>,
    starts: Seq<usize>,
    ranges: Seq<(usize, usize)>,
    i: int,
)
    requires
        0 <= i < started_completions(columns, starts, ranges).len(),
    ensures
        started_completions(columns, starts, ranges)[i].len() == 1 + ranges.len(),
        exists|k: int|
            0 <= k < starts.len() && #[trigger] starts[k] as int == started_completions(
                columns,
                starts,
                ranges,
            )[i][0],
        forall|t: int|
            0 <= t < ranges.len() ==> ranges[t].0 <= #[trigger] started_completions(
                columns,
                starts,
                ranges,
            )[i][1 + t] < ranges[t].1,
    decreases starts.len(),
{
    let first = seq![starts[0] as int];
    let block = completions(columns, first, ranges);
    let tail = started_completions(columns, starts.drop_first(), ranges);
    let l = started_completions(columns, starts, ranges)[i];
    if i < block.len() {
        lemma_completions_shape(columns, first, ranges, i);
        assert(l == block[i]);
        assert(l[0] == l.subrange(0, 1)[0]);
        assert(starts[0] as int == l[0]);
    } else {
        lemma_started_completions_shape(columns, starts.drop_first(), ranges, i - block.len());
        assert(l == tail[i - block.len()]);
        let k = choose|k: int|
            0 <= k < starts.drop_first().len() && #[trigger] starts.drop_first()[k] as int == tail[i
                - block.len()][0];
        assert(starts[k + 1] as int == l[0]);
    }
}

/// Distinct first keys start distinct labels.
proof fn lemma_started_completions_distinct(
    columns: Seq<u8>,
    starts: Seq<usize>,
    ranges: Seq<(usize, usize)>,
)
    requires
        starts.no_duplicates(),
    ensures
        started_completions(columns, starts, ranges).no_duplicates(),
    decreases starts.len(),
{
    if starts.len() > 0 {
        let first = seq![starts[0] as int];
        let block = completions(columns, first, ranges);
        let rest = starts.drop_first();
        let tail = started_completions(columns, rest, ranges);
        lemma_completions_distinct(columns, first, ranges);
        assert(rest.no_duplicates()) by {
            assert forall|a: int, b: int| 0 <= a < rest.len() && 0 <= b < rest.len() && a != b implies rest[a]
                != rest[b] by {
                assert(rest[a] == starts[a + 1] && rest[b] == starts[b + 1]);
            }
        }
        lemma_started_completions_distinct(columns, rest, ranges);
        assert forall|i: int, j: int| 0 <= i < block.len() && 0 <= j < tail.len() implies block[i]
            != tail[j] by {
            lemma_completions_shape(columns, first, ranges, i);
            lemma_started_completions_shape(columns, rest, ranges, j);
            assert(block[i][0] == block[i].subrange(0, 1)[0]);
            let k = choose|k: int| 0 <= k < rest.len() && #[trigger] rest[k] as int == tail[j][0];
            assert(rest[k] == starts[k + 1]);
        }
        lemma_concat_no_duplicates(block, tail);
    }
}

/// Whether each key of a hand is typed as one character of its own.
pub open spec fn keys_are_single_characters(keys: Seq<&str>) -> bool {
    &&& keys.len() == HAND_KEY_COUNT
    &&& forall|k: int| 0 <= k < HAND_KEY_COUNT ==> (#[trigger] keys[k])@.len() == 1
    &&& forall|k1: int, k2: int|
        0 <= k1 < HAND_KEY_COUNT && 0 <= k2 < HAND_KEY_COUNT && k1 != k2 ==> (#[trigger] keys[k1])@[0]
            != (#[trigger] keys[k2])@[0]
}

/// The text of a label has one character per key, the key's character.
proof fn lemma_key_text_characters(keys: Seq<&str>, label: Seq<int>)
    requires
        keys_are_single_characters(keys),
        forall|t: int| 0 <= t < label.len() ==> 0 <= #[trigger] label[t] < HAND_KEY_COUNT,
    ensures
        key_text(keys, label).len() == label.len(),
        forall|t: int| 0 <= t < label.len() ==> #[trigger] key_text(keys, label)[t] == keys[label[t]]@[0],
    decreases label.len(),
{
    if label.len() > 0 {
        let front = label.drop_last();
        lemma_key_text_characters(keys, front);
        let text = key_text(keys, label);
        assert(text == key_text(keys, front) + keys[label.last()]@);
        assert forall|t: int| 0 <= t < label.len() implies #[trigger] text[t] == keys[label[t]]@[0] by {
            if t < front.len() {
                assert(front[t] == label[t]);
            }
        }
    }
}

/// Whether a hand's labels can be told apart: each key is one character of
/// its own, and the keys that start three- and four-key labels are distinct
/// bottom-row keys.
pub open spec fn hand_is_sound(
    keys: Seq<&str>,
    columns: Seq<u8>,
    three_key_starts: Seq<usize>,
    four_key_starts: Seq<usize>,
) -> bool {
    &&& keys_are_single_characters(keys)
    &&& columns.len() == HAND_KEY_COUNT
    &&& three_key_starts.no_duplicates()
    &&& four_key_starts.no_duplicates()
    &&& forall|i: int| 0 <= i < three_key_starts.len() ==> 9 <= #[trigger] three_key_starts[i] < 14
    &&& forall|i: int| 0 <= i < four_key_starts.len() ==> 9 <= #[trigger] four_key_starts[i] < 14
    &&& forall|i: int, j: int|
        0 <= i < three_key_starts.len() && 0 <= j < four_key_starts.len() ==> #[trigger] three_key_starts[i]
            != #[trigger] four_key_starts[j]
}

/// The first key of a hand's label tells its length: a home-row key stands
/// alone, a top-row key starts two keys, and the three- and four-key starts
/// start three and four keys. Every key is one of the hand's.
proof fn lemma_hand_label_shape(
    columns: Seq<u8>,
    three_key_starts: Seq<usize>,
    four_key_starts: Seq<usize>,
    i: int,
)
    requires
        0 <= i < hand_labels(columns, three_key_starts, four_key_starts).len(),
        forall|k: int| 0 <= k < three_key_starts.len() ==> 9 <= #[trigger] three_key_starts[k] < 14,
        forall|k: int| 0 <= k < four_key_starts.len() ==> 9 <= #[trigger] four_key_starts[k] < 14,
    ensures
        ({
            let label = hand_labels(columns, three_key_starts, four_key_starts)[i];
            &&& forall|t: int| 0 <= t < label.len() ==> 0 <= #[trigger] label[t] < HAND_KEY_COUNT
            &&& label.len() >= 1
            &&& label.len() == 1 ==> 5 <= label[0] < 9
            &&& label.len() == 2 ==> 0 <= label[0] < 5
            &&& label.len() == 3 ==> exists|k: int|
                0 <= k < three_key_starts.len() && #[trigger] three_key_starts[k] as int == label[0]
            &&& label.len() == 4 ==> exists|k: int|
                0 <= k < four_key_starts.len() && #[trigger] four_key_starts[k] as int == label[0]
            &&& 1 <= label.len() <= 4
        }),
{
    let none: Seq<int> = seq![];
    let a = completions(columns, none, ONE_KEY_RANGES@);
    let b = completions(columns, none, TWO_KEY_RANGES@);
    let c = started_completions(columns, three_key_starts, THREE_KEY_RANGES@);
    let d = started_completions(columns, four_key_starts, FOUR_KEY_RANGES@);
    let all = hand_labels(columns, three_key_starts, four_key_starts);
    assert(all == a + b + c + d);
    let label = all[i];
    if i < a.len() {
        lemma_completions_shape(columns, none, ONE_KEY_RANGES@, i);
        assert(label == a[i]);
        assert(ONE_KEY_RANGES@[0] == (5usize, 9usize));
        assert(label[0] == label[none.len() + 0int]);
    } else if i < a.len() + b.len() {
        lemma_completions_shape(columns, none, TWO_KEY_RANGES@, i - a.len());
        assert(label == b[i - a.len()]);
        assert(TWO_KEY_RANGES@[0] == (0usize, 5usize));
        assert(TWO_KEY_RANGES@[1] == (5usize, 14usize));
        assert(label[0] == label[none.len() + 0int]);
        assert(label[1] == label[none.len() + 1int]);
    } else if i < a.len() + b.len() + c.len() {
        let j = i - a.len() - b.len();
        lemma_started_completions_shape(columns, three_key_starts, THREE_KEY_RANGES@, j);
        assert(label == c[j]);
        assert(THREE_KEY_RANGES@[0] == (0usize, 9usize));
        assert(THREE_KEY_RANGES@[1] == (0usize, 14usize));
        assert(label[1] == label[1int + 0]);
        assert(label[2] == label[1int + 1]);
        let k = choose|k: int|
            0 <= k < three_key_starts.len() && #[trigger] three_key_starts[k] as int == c[j][0];
        assert(9 <= three_key_starts[k] < 14);
    } else {
        let j = i - a.len() - b.len() - c.len();
        lemma_started_completions_shape(columns, four_key_starts, FOUR_KEY_RANGES@, j);
        assert(label == d[j]);
        assert(FOUR_KEY_RANGES@[0] == (0usize, 9usize));
        assert(FOUR_KEY_RANGES@[1] == (0usize, 14usize));
        assert(FOUR_KEY_RANGES@[2] == (0usize, 14usize));
        assert(label[1] == label[1int + 0]);
        assert(label[2] == label[1int + 1]);
        assert(label[3] == label[1int + 2]);
        let k = choose|k: int|
            0 <= k < four_key_starts.len() && #[trigger] four_key_starts[k] as int == d[j][0];
        assert(9 <= four_key_starts[k] < 14);
    }
}

/// No label of a hand is handed out twice.
proof fn lemma_hand_labels_distinct(
    columns: Seq<u8>,
    three_key_starts: Seq<usize>,
    four_key_starts: Seq<usize>,
)
    requires
        three_key_starts.no_duplicates(),
        four_key_starts.no_duplicates(),
        forall|k: int| 0 <= k < three_key_starts.len() ==> 9 <= #[trigger] three_key_starts[k] < 14,
        forall|k: int| 0 <= k < four_key_starts.len() ==> 9 <= #[trigger] four_key_starts[k] < 14,
    ensures
        hand_labels(columns, three_key_starts, four_key_starts).no_duplicates(),
{
    let none: Seq<int> = seq![];
    let a = completions(columns, none, ONE_KEY_RANGES@);
    let b = completions(columns, none, TWO_KEY_RANGES@);
    let c = started_completions(columns, three_key_starts, THREE_KEY_RANGES@);
    let d = started_completions(columns, four_key_starts, FOUR_KEY_RANGES@);
    lemma_completions_distinct(columns, none, ONE_KEY_RANGES@);
    lemma_completions_distinct(columns, none, TWO_KEY_RANGES@);
    lemma_started_completions_distinct(columns, three_key_starts, THREE_KEY_RANGES@);
    lemma_started_completions_distinct(columns, four_key_starts, FOUR_KEY_RANGES@);
    assert forall|i: int, j: int| 0 <= i < a.len() && 0 <= j < b.len() implies a[i] != b[j] by {
        lemma_completions_shape(columns, none, ONE_KEY_RANGES@, i);
        lemma_completions_shape(columns, none, TWO_KEY_RANGES@, j);
    }
    lemma_concat_no_duplicates(a, b);
    let ab = a + b;
    assert forall|i: int, j: int| 0 <= i < ab.len() && 0 <= j < c.len() implies ab[i] != c[j] by {
        if i < a.len() {
            lemma_completions_shape(columns, none, ONE_KEY_RANGES@, i);
        } else {
            lemma_completions_shape(columns, none, TWO_KEY_RANGES@, i - a.len());
        }
        lemma_started_completions_shape(columns, three_key_starts, THREE_KEY_RANGES@, j);
    }
    lemma_concat_no_duplicates(ab, c);
    let abc = ab + c;
    assert forall|i: int, j: int| 0 <= i < abc.len() && 0 <= j < d.len() implies abc[i] != d[j] by {
        if i < a.len() {
            lemma_completions_shape(columns, none, ONE_KEY_RANGES@, i);
        } else if i < ab.len() {
            lemma_completions_shape(columns, none, TWO_KEY_RANGES@, i - a.len());
        } else {
            lemma_started_completions_shape(columns, three_key_starts, THREE_KEY_RANGES@, i - ab.len());
        }
        lemma_started_completions_shape(columns, four_key_starts, FOUR_KEY_RANGES@, j);
    }
    lemma_concat_no_duplicates(abc, d);
}

/// For a sound hand, no label is the beginning of another label of the same
/// hand (in particular, no label is handed out twice).
pub proof fn sound_hand_labels_are_prefix_free(
    keys: Seq<&str>,
    columns: Seq<u8>,
    three_key_starts: Seq<usize>,
    four_key_starts: Seq<usize>,
)
    requires
        hand_is_sound(keys, columns, three_key_starts, four_key_starts),
    ensures
        ({
            let texts = key_texts(keys, hand_labels(columns, three_key_starts, four_key_starts));
            forall|i: int, j: int|
                0 <= i < texts.len() && 0 <= j < texts.len() && i != j ==> !(
                #[trigger] texts[i]).is_prefix_of(#[trigger] texts[j])
        }),
{
    let all = hand_labels(columns, three_key_starts, four_key_starts);
    let texts = key_texts(keys, all);
    lemma_hand_labels_distinct(columns, three_key_starts, four_key_starts);
    assert forall|i: int, j: int| 0 <= i < texts.len() && 0 <= j < texts.len() && i != j implies !(
    #[trigger] texts[i]).is_prefix_of(#[trigger] texts[j]) by {
        lemma_hand_label_shape(columns, three_key_starts, four_key_starts, i);
        lemma_hand_label_shape(columns, three_key_starts, four_key_starts, j);
        let x = all[i];
        let y = all[j];
        lemma_key_text_characters(keys, x);
        lemma_key_text_characters(keys, y);
        if texts[i].is_prefix_of(texts[j]) {
            assert forall|t: int| 0 <= t < x.len() implies #[trigger] x[t] == y[t] by {
                assert(texts[i][t] == texts[j].subrange(0, texts[i].len() as int)[t]);
                assert(texts[i][t] == keys[x[t]]@[0]);
                assert(texts[j][t] == keys[y[t]]@[0]);
            }
            assert(x[0] == y[0]);
            assert(x.len() == y.len());
            assert(x =~= y);
            assert(false);
        }
    }
}

/// The characters typed by the left hand's keys, in key order.
pub open spec fn left_hand_characters() -> Seq<char> {
    seq!['q', 'w', 'f', 'p', 'g', 'a', 'r', 's', 't', 'z', 'x', 'c', 'v', 'b']
}

/// The characters typed by the right hand's keys, in key order.
pub open spec fn right_hand_characters() -> Seq<char> {
    seq!['j', 'l', 'u', 'y', ';', 'n', 'e', 'i', 'o', 'k', 'm', ',', '.', '/']
}

/// Whether each of the fourteen keys is typed as the character at its place
/// in `chars`.
pub open spec fn keys_type(keys: Seq<&str>, chars: Seq<char>) -> bool {
    &&& keys.len() == HAND_KEY_COUNT
    &&& chars.len() == HAND_KEY_COUNT
    &&& forall|k: int| 0 <= k < HAND_KEY_COUNT ==> #[trigger] keys[k]@ == seq![chars[k]]
}

/// Each key of each hand is typed as its character.
proof fn lemma_hand_key_texts()
    ensures
        keys_type(LEFT_HAND_KEYS@, left_hand_characters()),
        keys_type(RIGHT_HAND_KEYS@, right_hand_characters()),
{
    reveal_strlit("q");
    reveal_strlit("w");
    reveal_strlit("f");
    reveal_strlit("p");
    reveal_strlit("g");
    reveal_strlit("a");
    reveal_strlit("r");
    reveal_strlit("s");
    reveal_strlit("t");
    reveal_strlit("z");
    reveal_strlit("x");
    reveal_strlit("c");
    reveal_strlit("v");
    reveal_strlit("b");
    reveal_strlit("j");
    reveal_strlit("l");
    reveal_strlit("u");
    reveal_strlit("y");
    reveal_strlit(";");
    reveal_strlit("n");
    reveal_strlit("e");
    reveal_strlit("i");
    reveal_strlit("o");
    reveal_strlit("k");
    reveal_strlit("m");
    reveal_strlit(",");
    reveal_strlit(".");
    reveal_strlit("/");
    assert(LEFT_HAND_KEYS@[0]@ == seq!['q']);
    assert(LEFT_HAND_KEYS@[1]@ == seq!['w']);
    assert(LEFT_HAND_KEYS@[2]@ == seq!['f']);
    assert(LEFT_HAND_KEYS@[3]@ == seq!['p']);
    assert(LEFT_HAND_KEYS@[4]@ == seq!['g']);
    assert(LEFT_HAND_KEYS@[5]@ == seq!['a']);
    assert(LEFT_HAND_KEYS@[6]@ == seq!['r']);
    assert(LEFT_HAND_KEYS@[7]@ == seq!['s']);
    assert(LEFT_HAND_KEYS@[8]@ == seq!['t']);
    assert(LEFT_HAND_KEYS@[9]@ == seq!['z']);
    assert(LEFT_HAND_KEYS@[10]@ == seq!['x']);
    assert(LEFT_HAND_KEYS@[11]@ == seq!['c']);
    assert(LEFT_HAND_KEYS@[12]@ == seq!['v']);
    assert(LEFT_HAND_KEYS@[13]@ == seq!['b']);
    assert(RIGHT_HAND_KEYS@[0]@ == seq!['j']);
    assert(RIGHT_HAND_KEYS@[1]@ == seq!['l']);
    assert(RIGHT_HAND_KEYS@[2]@ == seq!['u']);
    assert(RIGHT_HAND_KEYS@[3]@ == seq!['y']);
    assert(RIGHT_HAND_KEYS@[4]@ == seq![';']);
    assert(RIGHT_HAND_KEYS@[5]@ == seq!['n']);
    assert(RIGHT_HAND_KEYS@[6]@ == seq!['e']);
    assert(RIGHT_HAND_KEYS@[7]@ == seq!['i']);
    assert(RIGHT_HAND_KEYS@[8]@ == seq!['o']);
    assert(RIGHT_HAND_KEYS@[9]@ == seq!['k']);
    assert(RIGHT_HAND_KEYS@[10]@ == seq!['m']);
    assert(RIGHT_HAND_KEYS@[11]@ == seq![',']);
    assert(RIGHT_HAND_KEYS@[12]@ == seq!['.']);
    assert(RIGHT_HAND_KEYS@[13]@ == seq!['/']);
    let left = left_hand_characters();
    let right = right_hand_characters();
    assert forall|k: int| 0 <= k < HAND_KEY_COUNT implies #[trigger] LEFT_HAND_KEYS@[k]@ == seq![left[k]] by {}
    assert forall|k: int| 0 <= k < HAND_KEY_COUNT implies #[trigger] RIGHT_HAND_KEYS@[k]@ == seq![right[k]] by {}
}

/// Keys typed as fourteen different characters are single characters of
/// their own.
proof fn lemma_single_characters(keys: Seq<&str>, chars: Seq<char>)
    requires
        keys_type(keys, chars),
        forall|a: int, b: int| 0 <= a < b < HAND_KEY_COUNT ==> #[trigger] chars[a] != #[trigger] chars[b],
    ensures
        keys_are_single_characters(keys),
{
    assert forall|k1: int, k2: int|
        0 <= k1 < HAND_KEY_COUNT && 0 <= k2 < HAND_KEY_COUNT && k1 != k2 implies (#[trigger] keys[k1])@[0]
        != (#[trigger] keys[k2])@[0] by {
        assert(keys[k1]@ == seq![chars[k1]]);
        assert(keys[k2]@ == seq![chars[k2]]);
        if k1 > k2 {
            assert(chars[k2] != chars[k1]);
        } else {
            assert(chars[k1] != chars[k2]);
        }
    }
}

/// Both hands are sound.
proof fn lemma_hands_sound()
    ensures
        hand_is_sound(LEFT_HAND_KEYS@, LEFT_HAND_COLUMNS@, LEFT_HAND_THREE_KEY_STARTS@, LEFT_HAND_FOUR_KEY_STARTS@),
        hand_is_sound(RIGHT_HAND_KEYS@, RIGHT_HAND_COLUMNS@, RIGHT_HAND_THREE_KEY_STARTS@, RIGHT_HAND_FOUR_KEY_STARTS@),
{
    lemma_hand_key_texts();
    lemma_single_characters(LEFT_HAND_KEYS@, left_hand_characters());
    lemma_single_characters(RIGHT_HAND_KEYS@, right_hand_characters());
    assert(LEFT_HAND_THREE_KEY_STARTS@.no_duplicates());
    assert(LEFT_HAND_FOUR_KEY_STARTS@.no_duplicates());
    assert(RIGHT_HAND_THREE_KEY_STARTS@.no_duplicates());
    assert(RIGHT_HAND_FOUR_KEY_STARTS@.no_duplicates());
}
/// Law: no built-in label for targets before the cursor is the beginning of
/// another one, so no label is handed out twice and typing a label picks
/// exactly one target.
pub proof fn screen_before_labels_are_prefix_free()
    ensures
        forall|i: int, j: int|
            0 <= i < screen_before_labels().len() && 0 <= j < screen_before_labels().len() && i != j
                ==> !(#[trigger] screen_before_labels()[i]).is_prefix_of(
                #[trigger] screen_before_labels()[j],
            ),
{
    lemma_hands_sound();
    sound_hand_labels_are_prefix_free(
        LEFT_HAND_KEYS@,
        LEFT_HAND_COLUMNS@,
        LEFT_HAND_THREE_KEY_STARTS@,
        LEFT_HAND_FOUR_KEY_STARTS@,
    );
}

/// Law: no built-in label for targets after the cursor is the beginning of
/// another one.
pub proof fn screen_after_labels_are_prefix_free()
    ensures
        forall|i: int, j: int|
            0 <= i < screen_after_labels().len() && 0 <= j < screen_after_labels().len() && i != j
                ==> !(#[trigger] screen_after_labels()[i]).is_prefix_of(
                #[trigger] screen_after_labels()[j],
            ),
{
    lemma_hands_sound();
    sound_hand_labels_are_prefix_free(
        RIGHT_HAND_KEYS@,
        RIGHT_HAND_COLUMNS@,
        RIGHT_HAND_THREE_KEY_STARTS@,
        RIGHT_HAND_FOUR_KEY_STARTS@,
    );
}

/// Each label of a sound hand has at least one character, and the character
/// at place `t` of it is typed by one of the hand's keys, the one returned.
proof fn lemma_label_character(
    keys: Seq<&str>,
    columns: Seq<u8>,
    three_key_starts: Seq<usize>,
    four_key_starts: Seq<usize>,
    i: int,
    t: int,
) -> (k: int)
    requires
        hand_is_sound(keys, columns, three_key_starts, four_key_starts),
        0 <= i < hand_labels(columns, three_key_starts, four_key_starts).len(),
        0 <= t,
    ensures
        key_texts(keys, hand_labels(columns, three_key_starts, four_key_starts))[i].len() >= 1,
        t < key_texts(keys, hand_labels(columns, three_key_starts, four_key_starts))[i].len() ==> {
            &&& 0 <= k < HAND_KEY_COUNT
            &&& key_texts(keys, hand_labels(columns, three_key_starts, four_key_starts))[i][t]
                == keys[k]@[0]
        },
{
    let label = hand_labels(columns, three_key_starts, four_key_starts)[i];
    lemma_hand_label_shape(columns, three_key_starts, four_key_starts, i);
    lemma_key_text_characters(keys, label);
    if t < label.len() {
        label[t]
    } else {
        0
    }
}

/// Law: a label for a target before the cursor and one for a target after it
/// never clash: neither is the beginning of the other, since the first is
/// typed with the left hand and the second with the right hand.
pub proof fn screen_labels_before_and_after_never_clash()
    ensures
        forall|i: int, j: int|
            0 <= i < screen_before_labels().len() && 0 <= j < screen_after_labels().len() ==> {
                &&& !(#[trigger] screen_before_labels()[i]).is_prefix_of(
                    #[trigger] screen_after_labels()[j],
                )
                &&& !screen_after_labels()[j].is_prefix_of(screen_before_labels()[i])
            },
{
    lemma_hands_sound();
    lemma_hand_key_texts();
    let before = screen_before_labels();
    let after = screen_after_labels();
    assert forall|i: int, j: int| 0 <= i < before.len() && 0 <= j < after.len() implies {
        &&& !(#[trigger] before[i]).is_prefix_of(#[trigger] after[j])
        &&& !after[j].is_prefix_of(before[i])
    } by {
        let kl = lemma_label_character(
            LEFT_HAND_KEYS@,
            LEFT_HAND_COLUMNS@,
            LEFT_HAND_THREE_KEY_STARTS@,
            LEFT_HAND_FOUR_KEY_STARTS@,
            i,
            0,
        );
        let kr = lemma_label_character(
            RIGHT_HAND_KEYS@,
            RIGHT_HAND_COLUMNS@,
            RIGHT_HAND_THREE_KEY_STARTS@,
            RIGHT_HAND_FOUR_KEY_STARTS@,
            j,
            0,
        );
        assert(LEFT_HAND_KEYS@[kl]@ == seq![left_hand_characters()[kl]]);
        assert(RIGHT_HAND_KEYS@[kr]@ == seq![right_hand_characters()[kr]]);
        assert(left_hand_characters()[kl] != right_hand_characters()[kr]);
        if before[i].is_prefix_of(after[j]) {
            assert(before[i][0] == after[j].subrange(0, before[i].len() as int)[0]);
        }
        if after[j].is_prefix_of(before[i]) {
            assert(after[j][0] == before[i].subrange(0, after[j].len() as int)[0]);
        }
    }
}

/// Law: no character of a label for targets before the cursor occurs in a
/// label for targets after it: the two lists share no key.
pub proof fn screen_labels_before_and_after_share_no_key()
    ensures
        forall|i: int, j: int, k: int, m: int|
            0 <= i < screen_before_labels().len() && 0 <= j < screen_after_labels().len() && 0 <= k
                < screen_before_labels()[i].len() && 0 <= m < screen_after_labels()[j].len()
                ==> #[trigger] screen_before_labels()[i][k] != #[trigger] screen_after_labels()[j][m],
{
    lemma_hands_sound();
    lemma_hand_key_texts();
    let before = screen_before_labels();
    let after = screen_after_labels();
    let left = left_hand_characters();
    let right = right_hand_characters();
    assert forall|a: int, b: int| 0 <= a < HAND_KEY_COUNT && 0 <= b < HAND_KEY_COUNT implies #[trigger] left[a]
        != #[trigger] right[b] by {}
    assert forall|i: int, j: int, k: int, m: int|
        0 <= i < before.len() && 0 <= j < after.len() && 0 <= k < before[i].len() && 0 <= m
            < after[j].len() implies #[trigger] before[i][k] != #[trigger] after[j][m] by {
        let kl = lemma_label_character(
            LEFT_HAND_KEYS@,
            LEFT_HAND_COLUMNS@,
            LEFT_HAND_THREE_KEY_STARTS@,
            LEFT_HAND_FOUR_KEY_STARTS@,
            i,
            k,
        );
        let kr = lemma_label_character(
            RIGHT_HAND_KEYS@,
            RIGHT_HAND_COLUMNS@,
            RIGHT_HAND_THREE_KEY_STARTS@,
            RIGHT_HAND_FOUR_KEY_STARTS@,
            j,
            m,
        );
        assert(LEFT_HAND_KEYS@[kl]@ == seq![left[kl]]);
        assert(RIGHT_HAND_KEYS@[kr]@ == seq![right[kr]]);
    }
}

/// The key typed last in `prefix`, or -1 when nothing has been typed yet.
pub open spec fn last_key(prefix: Seq<int>) -> int {
    if prefix.len() == 0 {
        -1
    } else {
        prefix.last()
    }
}

/// Whether `key` may be typed after the key `last` (-1: after nothing).
pub open spec fn follows(columns: Seq<u8>, last: int, key: int) -> bool {
    last < 0 || last == key || columns[last] != columns[key]
}

/// How many labels extend a prefix ending in `last` by one key from each range.
pub open spec fn label_count(columns: Seq<u8>, last: int, ranges: Seq<(usize, usize)>) -> nat
    decreases ranges.len(), 0int,
{
    if ranges.len() == 0 {
        1
    } else {
        label_count_from(columns, last, ranges[0].0 as int, ranges[0].1 as int, ranges.drop_first())
    }
}

/// How many of those labels take their next key from `key..end`.
pub open spec fn label_count_from(
    columns: Seq<u8>,
    last: int,
    key: int,
    end: int,
    rest: Seq<(usize, usize)>,
) -> nat
    decreases rest.len(), end - key + 1,
{
    if key >= end {
        0
    } else {
        (if follows(columns, last, key) {
            label_count(columns, key, rest)
        } else {
            0
        }) + label_count_from(columns, last, key + 1, end, rest)
    }
}

/// How many labels the first keys in `starts` start, together.
pub open spec fn started_count(columns: Seq<u8>, starts: Seq<usize>, ranges: Seq<(usize, usize)>) -> nat
    decreases starts.len(),
{
    if starts.len() == 0 {
        0
    } else {
        label_count(columns, starts[0] as int, ranges) + started_count(
            columns,
            starts.drop_first(),
            ranges,
        )
    }
}

proof fn lemma_completions_count(columns: Seq<u8>, prefix: Seq<int>, ranges: Seq<(usize, usize)>)
    requires
        prefix.len() > 0 ==> prefix.last() >= 0,
    ensures
        completions(columns, prefix, ranges).len() == label_count(columns, last_key(prefix), ranges),
    decreases ranges.len(), 0int,
{
    if ranges.len() > 0 {
        lemma_completions_from_count(
            columns,
            prefix,
            ranges[0].0 as int,
            ranges[0].1 as int,
            ranges.drop_first(),
        );
    }
}

proof fn lemma_completions_from_count(
    columns: Seq<u8>,
    prefix: Seq<int>,
    key: int,
    end: int,
    rest: Seq<(usize, usize)>,
)
    requires
        prefix.len() > 0 ==> prefix.last() >= 0,
        key >= 0,
    ensures
        completions_from(columns, prefix, key, end, rest).len() == label_count_from(
            columns,
            last_key(prefix),
            key,
            end,
            rest,
        ),
    decreases rest.len(), end - key + 1,
{
    if key < end {
        let longer = prefix.push(key);
        assert(last_key(longer) == key);
        if may_follow(columns, prefix, key) {
            lemma_completions_count(columns, longer, rest);
        }
        lemma_completions_from_count(columns, prefix, key + 1, end, rest);
    }
}

proof fn lemma_started_completions_count(
    columns: Seq<u8>,
    starts: Seq<usize>,
    ranges: Seq<(usize, usize)>,
)
    ensures
        started_completions(columns, starts, ranges).len() == started_count(columns, starts, ranges),
    decreases starts.len(),
{
    if starts.len() > 0 {
        lemma_completions_count(columns, seq![starts[0] as int], ranges);
        lemma_started_completions_count(columns, starts.drop_first(), ranges);
    }
}

/// A hand has as many labels as its label ranges and starts count.
proof fn lemma_hand_labels_count(
    columns: Seq<u8>,
    three_key_starts: Seq<usize>,
    four_key_starts: Seq<usize>,
)
    ensures
        hand_labels(columns, three_key_starts, four_key_starts).len() == label_count(
            columns,
            -1,
            ONE_KEY_RANGES@,
        ) + label_count(columns, -1, TWO_KEY_RANGES@) + started_count(
            columns,
            three_key_starts,
            THREE_KEY_RANGES@,
        ) + started_count(columns, four_key_starts, FOUR_KEY_RANGES@),
{
    let none: Seq<int> = seq![];
    lemma_completions_count(columns, none, ONE_KEY_RANGES@);
    lemma_completions_count(columns, none, TWO_KEY_RANGES@);
    lemma_started_completions_count(columns, three_key_starts, THREE_KEY_RANGES@);
    lemma_started_completions_count(columns, four_key_starts, FOUR_KEY_RANGES@);
}

/// The column layout of either hand: five columns, with `short` the column
/// that has only two keys.
pub open spec fn is_hand_layout(columns: Seq<u8>, short: u8) -> bool {
    ||| columns == LEFT_HAND_COLUMNS@ && short == 4
    ||| columns == RIGHT_HAND_COLUMNS@ && short == 0
}

proof fn lemma_hand_layouts()
    ensures
        LEFT_HAND_COLUMNS@ =~= seq![0u8, 1, 2, 3, 4, 0, 1, 2, 3, 0, 1, 2, 3, 4],
        RIGHT_HAND_COLUMNS@ =~= seq![0u8, 1, 2, 3, 4, 1, 2, 3, 4, 0, 1, 2, 3, 4],
        LEFT_HAND_COLUMNS@ != RIGHT_HAND_COLUMNS@,
{
    assert(LEFT_HAND_COLUMNS@[5] != RIGHT_HAND_COLUMNS@[5]);
}

/// The sum of `weight(k)` over the keys `k` in `key..end` that may follow `last`.
pub open spec fn weighted(
    columns: Seq<u8>,
    last: int,
    key: int,
    end: int,
    weight: spec_fn(int) -> nat,
) -> nat
    decreases end - key,
{
    if key >= end {
        0
    } else {
        (if follows(columns, last, key) {
            weight(key)
        } else {
            0
        }) + weighted(columns, last, key + 1, end, weight)
    }
}

/// When each next key `k` leaves `weight(k)` labels, the labels whose next
/// key lies in `key..end` add up to the weighted sum.
proof fn lemma_count_from_weighted(
    columns: Seq<u8>,
    last: int,
    key: int,
    end: int,
    rest: Seq<(usize, usize)>,
    weight: spec_fn(int) -> nat,
)
    requires
        forall|k: int| key <= k < end ==> #[trigger] label_count(columns, k, rest) == weight(k),
    ensures
        label_count_from(columns, last, key, end, rest) == weighted(columns, last, key, end, weight),
    decreases end - key,
{
    if key < end {
        assert(label_count(columns, key, rest) == weight(key));
        lemma_count_from_weighted(columns, last, key + 1, end, rest, weight);
    }
}

/// Labels of one more key, any key, after the key `last`.
proof fn lemma_one_more_key(columns: Seq<u8>, short: u8, last: int)
    requires
        is_hand_layout(columns, short),
        0 <= last < HAND_KEY_COUNT,
    ensures
        label_count(columns, last, seq![(0usize, 14usize)]) == if columns[last] == short {
            13nat
        } else {
            12nat
        },
{
    let none = Seq::<(usize, usize)>::empty();
    let one = seq![(0usize, 14usize)];
    assert(one.drop_first() =~= none);
    let weight = |k: int| 1nat;
    lemma_count_from_weighted(columns, last, 0, 14, none, weight);
    reveal_with_fuel(weighted, 15);
    lemma_hand_layouts();
    if last == 0 {
    } else if last == 1 {
    } else if last == 2 {
    } else if last == 3 {
    } else if last == 4 {
    } else if last == 5 {
    } else if last == 6 {
    } else if last == 7 {
    } else if last == 8 {
    } else if last == 9 {
    } else if last == 10 {
    } else if last == 11 {
    } else if last == 12 {
    } else {
    }
}

/// Labels of two more keys, any keys, after the key `last`.
#[verifier::spinoff_prover]
#[verifier::rlimit(60)]
proof fn lemma_two_more_keys(columns: Seq<u8>, short: u8, last: int)
    requires
        is_hand_layout(columns, short),
        0 <= last < HAND_KEY_COUNT,
    ensures
        label_count(columns, last, seq![(0usize, 14usize), (0usize, 14usize)]) == if columns[last]
            == short {
            157nat
        } else {
            146nat
        },
{
    let one = seq![(0usize, 14usize)];
    assert(seq![(0usize, 14usize), (0usize, 14usize)].drop_first() =~= one);
    let weight = |k: int| if columns[k] == short { 13nat } else { 12nat };
    assert forall|k: int| 0 <= k < 14 implies #[trigger] label_count(columns, k, one) == weight(k) by {
        lemma_one_more_key(columns, short, k);
    }
    lemma_count_from_weighted(columns, last, 0, 14, one, weight);
    reveal_with_fuel(weighted, 15);
    lemma_hand_layouts();
    if last == 0 {
    } else if last == 1 {
    } else if last == 2 {
    } else if last == 3 {
    } else if last == 4 {
    } else if last == 5 {
    } else if last == 6 {
    } else if last == 7 {
    } else if last == 8 {
    } else if last == 9 {
    } else if last == 10 {
    } else if last == 11 {
    } else if last == 12 {
    } else {
    }
}

/// Labels of three keys started by the bottom-row key `start`: a top- or
/// home-row key, then any key.
proof fn lemma_three_key_start(columns: Seq<u8>, short: u8, start: int)
    requires
        is_hand_layout(columns, short),
        9 <= start < HAND_KEY_COUNT,
    ensures
        label_count(columns, start, THREE_KEY_RANGES@) == if columns[start] == short {
            96nat
        } else {
            85nat
        },
{
    let one = seq![(0usize, 14usize)];
    assert(THREE_KEY_RANGES@[0] == (0usize, 9usize));
    assert(THREE_KEY_RANGES@.drop_first() =~= one);
    let weight = |k: int| if columns[k] == short { 13nat } else { 12nat };
    assert forall|k: int| 0 <= k < 9 implies #[trigger] label_count(columns, k, one) == weight(k) by {
        lemma_one_more_key(columns, short, k);
    }
    lemma_count_from_weighted(columns, start, 0, 9, one, weight);
    reveal_with_fuel(weighted, 10);
    lemma_hand_layouts();
    if start == 9 {
    } else if start == 10 {
    } else if start == 11 {
    } else if start == 12 {
    } else {
    }
}

/// Labels of four keys started by the bottom-row key `start`: a top- or
/// home-row key, then two keys.
#[verifier::spinoff_prover]
#[verifier::rlimit(60)]
proof fn lemma_four_key_start(columns: Seq<u8>, short: u8, start: int)
    requires
        is_hand_layout(columns, short),
        9 <= start < HAND_KEY_COUNT,
    ensures
        label_count(columns, start, FOUR_KEY_RANGES@) == if columns[start] == short {
            1168nat
        } else {
            1033nat
        },
{
    let two = seq![(0usize, 14usize), (0usize, 14usize)];
    assert(FOUR_KEY_RANGES@[0] == (0usize, 9usize));
    assert(FOUR_KEY_RANGES@.drop_first() =~= two);
    let weight = |k: int| if columns[k] == short { 157nat } else { 146nat };
    assert forall|k: int| 0 <= k < 9 implies #[trigger] label_count(columns, k, two) == weight(k) by {
        lemma_two_more_keys(columns, short, k);
    }
    lemma_count_from_weighted(columns, start, 0, 9, two, weight);
    reveal_with_fuel(weighted, 10);
    lemma_hand_layouts();
    if start == 9 {
    } else if start == 10 {
    } else if start == 11 {
    } else if start == 12 {
    } else {
    }
}

/// Labels of two keys started by the top-row key `start`: then a home- or
/// bottom-row key.
proof fn lemma_two_key_start(columns: Seq<u8>, short: u8, start: int)
    requires
        is_hand_layout(columns, short),
        0 <= start < 5,
    ensures
        label_count(columns, start, seq![(5usize, 14usize)]) == if columns[start] == short {
            8nat
        } else {
            7nat
        },
{
    let none = Seq::<(usize, usize)>::empty();
    assert(seq![(5usize, 14usize)].drop_first() =~= none);
    let weight = |k: int| 1nat;
    lemma_count_from_weighted(columns, start, 5, 14, none, weight);
    reveal_with_fuel(weighted, 10);
    lemma_hand_layouts();
    if start == 0 {
    } else if start == 1 {
    } else if start == 2 {
    } else if start == 3 {
    } else {
    }
}

/// Whether a hand has the given columns and the given starts of three- and
/// four-key labels, as one of the two built-in hands.
pub open spec fn is_hand(
    columns: Seq<u8>,
    short: u8,
    three_key_starts: Seq<usize>,
    four_key_starts: Seq<usize>,
) -> bool {
    ||| columns == LEFT_HAND_COLUMNS@ && short == 4 && three_key_starts == LEFT_HAND_THREE_KEY_STARTS@
        && four_key_starts == LEFT_HAND_FOUR_KEY_STARTS@
    ||| columns == RIGHT_HAND_COLUMNS@ && short == 0 && three_key_starts
        == RIGHT_HAND_THREE_KEY_STARTS@ && four_key_starts == RIGHT_HAND_FOUR_KEY_STARTS@
}

/// Each built-in hand has 2372 labels: four of one key, 36 of two keys, 266
/// of three keys and 2066 of four keys.
proof fn lemma_hand_label_total(
    columns: Seq<u8>,
    short: u8,
    three_key_starts: Seq<usize>,
    four_key_starts: Seq<usize>,
)
    requires
        is_hand(columns, short, three_key_starts, four_key_starts),
    ensures
        hand_labels(columns, three_key_starts, four_key_starts).len() == 2372,
{
    lemma_hand_layouts();
    lemma_hand_labels_count(columns, three_key_starts, four_key_starts);
    let none = Seq::<(usize, usize)>::empty();
    let pair = seq![(5usize, 14usize)];
    assert(ONE_KEY_RANGES@[0] == (5usize, 9usize));
    assert(ONE_KEY_RANGES@.drop_first() =~= none);
    lemma_count_from_weighted(columns, -1, 5, 9, none, |k: int| 1nat);
    reveal_with_fuel(weighted, 15);
    assert(label_count(columns, -1, ONE_KEY_RANGES@) == 4);
    assert(TWO_KEY_RANGES@[0] == (0usize, 5usize));
    assert(TWO_KEY_RANGES@.drop_first() =~= pair);
    let two_weight = |k: int| if columns[k] == short { 8nat } else { 7nat };
    assert forall|k: int| 0 <= k < 5 implies #[trigger] label_count(columns, k, pair) == two_weight(k) by {
        lemma_two_key_start(columns, short, k);
    }
    lemma_count_from_weighted(columns, -1, 0, 5, pair, two_weight);
    assert(label_count(columns, -1, TWO_KEY_RANGES@) == 36);
    let s3 = three_key_starts;
    let s4 = four_key_starts;
    lemma_three_key_start(columns, short, s3[0] as int);
    lemma_three_key_start(columns, short, s3[1] as int);
    lemma_three_key_start(columns, short, s3[2] as int);
    lemma_four_key_start(columns, short, s4[0] as int);
    lemma_four_key_start(columns, short, s4[1] as int);
    reveal_with_fuel(started_count, 4);
    assert(s3.drop_first().drop_first().drop_first() =~= Seq::<usize>::empty());
    assert(s4.drop_first().drop_first() =~= Seq::<usize>::empty());
    assert(started_count(columns, s3, THREE_KEY_RANGES@) == 266);
    assert(started_count(columns, s4, FOUR_KEY_RANGES@) == 2066);
}

/// Law: the built-in lists for targets before and after the cursor are
/// equally long: 2372 labels each.
pub proof fn screen_label_lists_have_equal_length()
    ensures
        screen_before_labels().len() == 2372,
        screen_after_labels().len() == 2372,
{
    lemma_hand_label_total(
        LEFT_HAND_COLUMNS@,
        4,
        LEFT_HAND_THREE_KEY_STARTS@,
        LEFT_HAND_FOUR_KEY_STARTS@,
    );
    lemma_hand_label_total(
        RIGHT_HAND_COLUMNS@,
        0,
        RIGHT_HAND_THREE_KEY_STARTS@,
        RIGHT_HAND_FOUR_KEY_STARTS@,
    );
}

} // verus!
