//! Ordering of version texts by their numeric segments.
//!
//! A version is read as a dotted run of decimal numbers followed by whatever
//! is left: `2.10-rc1` is the numbers 2 and 10 and the rest `-rc1`. Versions
//! are ordered by their numbers, segment by segment; with equal numbers, one
//! with nothing left ranks above one with a rest, and two rests are ordered
//! character by character.

use vstd::prelude::*;
use vstd::string::*;

verus! {

pub open spec fn is_digit(c: char) -> bool {
    '0' as u32 <= c as u32 && c as u32 <= '9' as u32
}

pub open spec fn digit_value(c: char) -> int {
    c as u32 - '0' as u32
}

/// The end of the run of digits of `text` that starts at `from`.
pub open spec fn digits_end(text: Seq<char>, from: int) -> int
    decreases text.len() - from,
{
    if 0 <= from < text.len() && is_digit(text[from]) {
        digits_end(text, from + 1)
    } else {
        from
    }
}

/// The number that a run of decimal digits writes.
pub open spec fn decimal_value(digits: Seq<char>) -> nat
    decreases digits.len(),
{
    if digits.len() == 0 {
        0
    } else {
        (decimal_value(digits.drop_last()) * 10 + digit_value(digits.last())) as nat
    }
}

/// The value of a segment: the number its digits write, capped at the
/// largest `u64`.
pub open spec fn segment_value(digits: Seq<char>) -> int {
    if decimal_value(digits) > u64::MAX {
        u64::MAX as int
    } else {
        decimal_value(digits) as int
    }
}

/// Whether the numbers of `text` go on behind the segment that ends at `end`.
pub open spec fn continues(text: Seq<char>, end: int) -> bool {
    0 <= end < text.len() && text[end] == '.' && digits_end(text, end + 1) > end + 1
}

/// The numbers of the dotted run of segments of `text` that starts at `from`.
pub open spec fn numbers_from(text: Seq<char>, from: int) -> Seq<int>
    decreases text.len() - from,
{
    let end = digits_end(text, from);
    if from < 0 || end <= from {
        Seq::empty()
    } else if continues(text, end) {
        seq![segment_value(text.subrange(from, end))] + numbers_from(text, end + 1)
    } else {
        seq![segment_value(text.subrange(from, end))]
    }
}

/// Where the dotted run of segments of `text` that starts at `from` ends.
pub open spec fn numbers_end(text: Seq<char>, from: int) -> int
    decreases text.len() - from,
{
    let end = digits_end(text, from);
    if from < 0 || end <= from {
        from
    } else if continues(text, end) {
        numbers_end(text, end + 1)
    } else {
        end
    }
}

/// The character codes of `text`.
pub open spec fn codes(text: Seq<char>) -> Seq<int> {
    Seq::new(text.len(), |i: int| text[i] as u32 as int)
}

/// What a version is ordered by.
pub struct VersionKey {
    /// The numbers of its leading dotted segments.
    pub numbers: Seq<int>,
    /// The character codes of what follows them.
    pub rest: Seq<int>,
}

pub open spec fn version_key(text: Seq<char>) -> VersionKey {
    VersionKey {
        numbers: numbers_from(text, 0),
        rest: codes(text.subrange(numbers_end(text, 0), text.len() as int)),
    }
}

/// Lexicographic order of two sequences: negative where `a` comes first,
/// zero where they are equal, positive where `b` comes first. A proper
/// prefix comes before what it is a prefix of.
pub open spec fn sequence_rank(a: Seq<int>, b: Seq<int>) -> int
    decreases a.len(),
{
    if a.len() == 0 && b.len() == 0 {
        0
    } else if a.len() == 0 {
        -1
    } else if b.len() == 0 {
        1
    } else if a[0] < b[0] {
        -1
    } else if a[0] > b[0] {
        1
    } else {
        sequence_rank(a.drop_first(), b.drop_first())
    }
}

/// Order of two keys: by numbers first; with equal numbers a key with no
/// rest ranks above one with a rest, and two rests are ordered by their
/// characters.
pub open spec fn key_rank(a: VersionKey, b: VersionKey) -> int {
    let by_numbers = sequence_rank(a.numbers, b.numbers);
    if by_numbers != 0 {
        by_numbers
    } else if a.rest.len() == 0 && b.rest.len() == 0 {
        0
    } else if a.rest.len() == 0 {
        1
    } else if b.rest.len() == 0 {
        -1
    } else {
        sequence_rank(a.rest, b.rest)
    }
}

/// Order of two version texts: negative where `a` is the lower version, zero
/// where neither is above the other, positive where `a` is the higher.
pub open spec fn version_rank(a: Seq<char>, b: Seq<char>) -> int {
    key_rank(version_key(a), version_key(b))
}

/// `a` is not a higher version than `b`.
pub open spec fn version_at_most(a: Seq<char>, b: Seq<char>) -> bool {
    version_rank(a, b) <= 0
}

pub proof fn lemma_sequence_rank_mirror(a: Seq<int>, b: Seq<int>)
    ensures
        sequence_rank(a, b) == -sequence_rank(b, a),
    decreases a.len(),
{
    if a.len() > 0 && b.len() > 0 && a[0] == b[0] {
        lemma_sequence_rank_mirror(a.drop_first(), b.drop_first());
    }
}

pub proof fn lemma_sequence_rank_equal(a: Seq<int>, b: Seq<int>)
    ensures
        sequence_rank(a, b) == 0 <==> a == b,
    decreases a.len(),
{
    if a.len() > 0 && b.len() > 0 && a[0] == b[0] {
        lemma_sequence_rank_equal(a.drop_first(), b.drop_first());
        if a.drop_first() == b.drop_first() {
            assert(a =~= seq![a[0]] + a.drop_first());
            assert(b =~= seq![b[0]] + b.drop_first());
        }
    } else if a.len() == 0 && b.len() == 0 {
        assert(a =~= b);
    }
}

pub proof fn lemma_sequence_rank_chain(a: Seq<int>, b: Seq<int>, c: Seq<int>)
    requires
        sequence_rank(a, b) <= 0,
        sequence_rank(b, c) <= 0,
    ensures
        sequence_rank(a, c) <= 0,
        sequence_rank(a, b) < 0 || sequence_rank(b, c) < 0 ==> sequence_rank(a, c) < 0,
    decreases a.len(),
{
    if a.len() > 0 && b.len() > 0 && c.len() > 0 {
        if a[0] == b[0] && b[0] == c[0] {
            lemma_sequence_rank_chain(a.drop_first(), b.drop_first(), c.drop_first());
        }
    }
}

/// The order of keys is total: each of two keys is at most the other.
pub proof fn lemma_key_rank_mirror(a: VersionKey, b: VersionKey)
    ensures
        key_rank(a, b) == -key_rank(b, a),
{
    lemma_sequence_rank_mirror(a.numbers, b.numbers);
    lemma_sequence_rank_mirror(a.rest, b.rest);
}

/// The order of keys is transitive, strictly so where one step is strict.
pub proof fn lemma_key_rank_chain(a: VersionKey, b: VersionKey, c: VersionKey)
    requires
        key_rank(a, b) <= 0,
        key_rank(b, c) <= 0,
    ensures
        key_rank(a, c) <= 0,
        key_rank(a, b) < 0 || key_rank(b, c) < 0 ==> key_rank(a, c) < 0,
{
    lemma_sequence_rank_mirror(a.numbers, b.numbers);
    lemma_sequence_rank_mirror(b.numbers, c.numbers);
    lemma_sequence_rank_equal(a.numbers, b.numbers);
    lemma_sequence_rank_equal(b.numbers, c.numbers);
    lemma_sequence_rank_equal(a.numbers, c.numbers);
    if sequence_rank(a.numbers, b.numbers) <= 0 && sequence_rank(b.numbers, c.numbers) <= 0 {
        lemma_sequence_rank_chain(a.numbers, b.numbers, c.numbers);
    }
    if a.numbers == b.numbers && b.numbers == c.numbers {
        if a.rest.len() > 0 && b.rest.len() > 0 && c.rest.len() > 0 {
            lemma_sequence_rank_chain(a.rest, b.rest, c.rest);
        }
    }
}

/// The values of a vector of numbers.
pub open spec fn values(items: Seq<u64>) -> Seq<int> {
    Seq::new(items.len(), |i: int| items[i] as int)
}

/// The characters of `text`.
pub fn characters(text: &str) -> (r: Vec<char>)
    ensures
        r@ == text@,
{
    let n = text.unicode_len();
    let mut out: Vec<char> = Vec::new();
    let mut i: usize = 0;
    while i < n
        invariant
            n == text@.len(),
            i <= n,
            out@ == text@.subrange(0, i as int),
        decreases n - i,
    {
        out.push(text.get_char(i));
        i = i + 1;
    }
    proof {
        assert(text@.subrange(0, n as int) == text@);
    }
    out
}

fn digit(c: char) -> (r: bool)
    ensures
        r == is_digit(c),
{
    let code: u32 = c as u32;
    48 <= code && code <= 57
}

/// The end of the run of digits that starts at `from`.
fn scan_digits(text: &Vec<char>, from: usize) -> (end: usize)
    requires
        from <= text.len(),
    ensures
        end == digits_end(text@, from as int),
        from <= end <= text.len(),
        forall|i: int| from <= i < end ==> is_digit(text@[i]),
{
    let mut end: usize = from;
    while end < text.len() && digit(text[end])
        invariant
            from <= end <= text.len(),
            digits_end(text@, from as int) == digits_end(text@, end as int),
            forall|i: int| from <= i < end ==> is_digit(text@[i]),
        decreases text.len() - end,
    {
        end = end + 1;
    }
    end
}

/// The value of the segment of digits between `from` and `end`.
fn read_segment(text: &Vec<char>, from: usize, end: usize) -> (value: u64)
    requires
        from <= end <= text.len(),
        forall|i: int| from <= i < end ==> is_digit(text@[i]),
    ensures
        value == segment_value(text@.subrange(from as int, end as int)),
{
    let mut value: u64 = 0;
    let mut i: usize = from;
    while i < end
        invariant
            from <= i <= end <= text.len(),
            forall|j: int| from <= j < end ==> is_digit(text@[j]),
            value == segment_value(text@.subrange(from as int, i as int)),
        decreases end - i,
    {
        let ghost before = text@.subrange(from as int, i as int);
        let ghost after = text@.subrange(from as int, i + 1);
        proof {
            assert(after.drop_last() == before);
            assert(after.last() == text@[i as int]);
        }
        let d: u64 = (text[i] as u32 - 48) as u64;
        value = match value.checked_mul(10) {
            Some(tens) => match tens.checked_add(d) {
                Some(sum) => sum,
                None => u64::MAX,
            },
            None => u64::MAX,
        };
        i = i + 1;
    }
    value
}

/// A version text, read for ordering.
#[derive(Debug)]
pub struct ParsedVersion {
    /// The numbers of its leading dotted segments.
    pub numbers: Vec<u64>,
    /// The character codes of what follows them.
    pub rest: Vec<u64>,
}

impl ParsedVersion {
    pub open spec fn key(self) -> VersionKey {
        VersionKey { numbers: values(self.numbers@), rest: values(self.rest@) }
    }

    /// Reads `text` as a version.
    pub fn parse(text: &str) -> (r: ParsedVersion)
        ensures
            r.key() == version_key(text@),
    {
        let chars = characters(text);
        let mut numbers: Vec<u64> = Vec::new();
        let mut from: usize = 0;
        let mut stop: usize = 0;
        proof {
            assert(values(numbers@) + numbers_from(chars@, 0) == numbers_from(chars@, 0));
        }
        loop
            invariant_except_break
                from <= chars.len(),
                numbers_from(chars@, 0) == values(numbers@) + numbers_from(chars@, from as int),
                numbers_end(chars@, 0) == numbers_end(chars@, from as int),
            ensures
                numbers_from(chars@, 0) == values(numbers@),
                stop == numbers_end(chars@, 0),
                stop <= chars.len(),
            decreases chars.len() - from,
        {
            let end = scan_digits(&chars, from);
            if end == from {
                stop = from;
                proof {
                    assert(values(numbers@) + Seq::<int>::empty() == values(numbers@));
                }
                break ;
            }
            let value = read_segment(&chars, from, end);
            let ghost before = values(numbers@);
            numbers.push(value);
            proof {
                assert(values(numbers@) == before + seq![value as int]);
            }
            let more = end < chars.len() && chars[end] == '.' && scan_digits(&chars, end + 1) > end
                + 1;
            if more {
                proof {
                    assert(before + (seq![value as int] + numbers_from(chars@, end + 1)) == (before
                        + seq![value as int]) + numbers_from(chars@, end + 1));
                }
                from = end + 1;
            } else {
                stop = end;
                break ;
            }
        }
        let mut rest: Vec<u64> = Vec::new();
        let mut i: usize = stop;
        while i < chars.len()
            invariant
                stop <= i <= chars.len(),
                values(rest@) == codes(chars@.subrange(stop as int, i as int)),
            decreases chars.len() - i,
        {
            let ghost before = values(rest@);
            rest.push(chars[i] as u32 as u64);
            proof {
                assert(values(rest@) == before.push(chars@[i as int] as u32 as int));
                assert(codes(chars@.subrange(stop as int, i + 1)) == codes(
                    chars@.subrange(stop as int, i as int),
                ).push(chars@[i as int] as u32 as int));
            }
            i = i + 1;
        }
        ParsedVersion { numbers, rest }
    }
}

/// Lexicographic order of two vectors of numbers, as -1, 0 or 1.
fn rank_values(a: &Vec<u64>, b: &Vec<u64>) -> (r: i8)
    ensures
        r == sequence_rank(values(a@), values(b@)),
{
    let mut i: usize = 0;
    proof {
        assert(values(a@).subrange(0, a.len() as int) == values(a@));
        assert(values(b@).subrange(0, b.len() as int) == values(b@));
    }
    while i < a.len() && i < b.len()
        invariant
            i <= a.len(),
            i <= b.len(),
            sequence_rank(values(a@), values(b@)) == sequence_rank(
                values(a@).subrange(i as int, a.len() as int),
                values(b@).subrange(i as int, b.len() as int),
            ),
        decreases a.len() - i,
    {
        let ghost ra = values(a@).subrange(i as int, a.len() as int);
        let ghost rb = values(b@).subrange(i as int, b.len() as int);
        proof {
            assert(ra[0] == a@[i as int]);
            assert(rb[0] == b@[i as int]);
            assert(ra.drop_first() == values(a@).subrange(i + 1, a.len() as int));
            assert(rb.drop_first() == values(b@).subrange(i + 1, b.len() as int));
        }
        if a[i] < b[i] {
            return -1;
        }
        if a[i] > b[i] {
            return 1;
        }
        i = i + 1;
    }
    if i < b.len() {
        -1
    } else if i < a.len() {
        1
    } else {
        0
    }
}

/// Order of two version texts, as -1, 0 or 1.
pub fn rank(a: &str, b: &str) -> (r: i8)
    ensures
        r == version_rank(a@, b@),
{
    let left = ParsedVersion::parse(a);
    let right = ParsedVersion::parse(b);
    let by_numbers = rank_values(&left.numbers, &right.numbers);
    if by_numbers != 0 {
        by_numbers
    } else if left.rest.len() == 0 && right.rest.len() == 0 {
        0
    } else if left.rest.len() == 0 {
        1
    } else if right.rest.len() == 0 {
        -1
    } else {
        rank_values(&left.rest, &right.rest)
    }
}

/// Whether `a` is not a higher version than `b`.
pub fn at_most(a: &str, b: &str) -> (r: bool)
    ensures
        r == version_at_most(a@, b@),
{
    rank(a, b) <= 0
}

/// Each of two versions is at most the other, and where both are, neither
/// is above the other.
pub proof fn lemma_version_order_total(a: Seq<char>, b: Seq<char>)
    ensures
        version_at_most(a, b) || version_at_most(b, a),
        version_rank(a, b) == -version_rank(b, a),
{
    lemma_key_rank_mirror(version_key(a), version_key(b));
}

/// The order of versions is transitive.
pub proof fn lemma_version_order_transitive(a: Seq<char>, b: Seq<char>, c: Seq<char>)
    requires
        version_at_most(a, b),
        version_at_most(b, c),
    ensures
        version_at_most(a, c),
        version_rank(a, b) < 0 || version_rank(b, c) < 0 ==> version_rank(a, c) < 0,
{
    lemma_key_rank_chain(version_key(a), version_key(b), version_key(c));
}

/// Texts with the same character codes are the same text.
pub proof fn lemma_codes_tell_apart(a: Seq<char>, b: Seq<char>)
    requires
        codes(a) == codes(b),
    ensures
        a == b,
{
    assert(a.len() == codes(a).len());
    assert(b.len() == codes(b).len());
    assert forall|i: int| 0 <= i < a.len() implies a[i] == b[i] by {
        assert(codes(a)[i] == a[i] as u32 as int);
        assert(codes(b)[i] == b[i] as u32 as int);
        vstd::utf8::char_u32_cast(a[i], a[i] as u32);
        vstd::utf8::char_u32_cast(b[i], b[i] as u32);
    }
    assert(a =~= b);
}

/// `a` comes before `b` in the order of strings: character by character
/// by code point, a proper prefix first.
pub open spec fn text_before(a: Seq<char>, b: Seq<char>) -> bool {
    sequence_rank(codes(a), codes(b)) < 0
}

/// Whether the texts of `order` stand in strictly ascending order.
pub open spec fn ascending(order: Seq<Seq<char>>) -> bool {
    forall|i: int, j: int|
        0 <= i < j < order.len() ==> text_before(#[trigger] order[i], #[trigger] order[j])
}

/// The character codes of `text`.
pub fn codes_of(text: &str) -> (r: Vec<u64>)
    ensures
        values(r@) == codes(text@),
{
    let chars = characters(text);
    let mut out: Vec<u64> = Vec::new();
    let mut i: usize = 0;
    while i < chars.len()
        invariant
            i <= chars.len(),
            chars@ == text@,
            values(out@) == codes(text@.subrange(0, i as int)),
        decreases chars.len() - i,
    {
        let ghost before = values(out@);
        out.push(chars[i] as u32 as u64);
        proof {
            assert(values(out@) == before.push(text@[i as int] as u32 as int));
            assert(codes(text@.subrange(0, i + 1)) == codes(text@.subrange(0, i as int)).push(
                text@[i as int] as u32 as int,
            ));
        }
        i = i + 1;
    }
    proof {
        assert(text@.subrange(0, text@.len() as int) == text@);
    }
    out
}

/// Order of two texts as strings, as -1, 0 or 1; 0 only for the same text.
pub fn text_rank(a: &str, b: &str) -> (r: i8)
    ensures
        r == sequence_rank(codes(a@), codes(b@)),
        r == 0 <==> a@ == b@,
{
    let left = codes_of(a);
    let right = codes_of(b);
    proof {
        lemma_sequence_rank_equal(codes(a@), codes(b@));
        if codes(a@) == codes(b@) {
            lemma_codes_tell_apart(a@, b@);
        }
    }
    rank_values(&left, &right)
}

/// Texts in strictly ascending order are all different.
pub proof fn lemma_ascending_distinct(order: Seq<Seq<char>>)
    requires
        ascending(order),
    ensures
        order.no_duplicates(),
{
    assert forall|i: int, j: int| 0 <= i < order.len() && 0 <= j < order.len() && i != j implies order[i]
        != order[j] by {
        lemma_sequence_rank_equal(codes(order[i]), codes(order[j]));
        if i < j {
            assert(text_before(order[i], order[j]));
        } else {
            assert(text_before(order[j], order[i]));
        }
    }
}

/// There is one way only to put given texts in strictly ascending order.
pub proof fn lemma_ascending_unique(a: Seq<Seq<char>>, b: Seq<Seq<char>>)
    requires
        ascending(a),
        ascending(b),
        a.to_set() == b.to_set(),
    ensures
        a == b,
    decreases a.len(),
{
    lemma_ascending_distinct(a);
    lemma_ascending_distinct(b);
    a.unique_seq_to_set();
    b.unique_seq_to_set();
    assert(a.len() == b.len());
    if a.len() > 0 {
        let x = a.last();
        let y = b.last();
        assert(a.contains(x));
        assert(b.to_set().contains(x));
        assert(b.contains(y));
        assert(a.to_set().contains(y));
        let i = choose|i: int| 0 <= i < b.len() && b[i] == x;
        let j = choose|j: int| 0 <= j < a.len() && a[j] == y;
        if x != y {
            assert(i < b.len() - 1);
            assert(j < a.len() - 1);
            assert(text_before(b[i], b[b.len() - 1]));
            assert(text_before(a[j], a[a.len() - 1]));
            lemma_sequence_rank_mirror(codes(x), codes(y));
        }
        let shorter_a = a.drop_last();
        let shorter_b = b.drop_last();
        assert forall|t: Seq<char>| shorter_a.to_set().contains(t) <==> shorter_b.to_set().contains(
            t,
        ) by {
            if shorter_a.contains(t) {
                let k = choose|k: int| 0 <= k < shorter_a.len() && shorter_a[k] == t;
                assert(a[k] == t);
                assert(a.contains(t));
                assert(b.to_set().contains(t));
                let m = choose|m: int| 0 <= m < b.len() && b[m] == t;
                assert(m != b.len() - 1);
                assert(shorter_b[m] == t);
            }
            if shorter_b.contains(t) {
                let k = choose|k: int| 0 <= k < shorter_b.len() && shorter_b[k] == t;
                assert(b[k] == t);
                assert(b.contains(t));
                assert(a.to_set().contains(t));
                let m = choose|m: int| 0 <= m < a.len() && a[m] == t;
                assert(m != a.len() - 1);
                assert(shorter_a[m] == t);
            }
        }
        assert(shorter_a.to_set() =~= shorter_b.to_set());
        assert forall|p: int, q: int| 0 <= p < q < shorter_a.len() implies text_before(
            #[trigger] shorter_a[p],
            #[trigger] shorter_a[q],
        ) by {
            assert(text_before(a[p], a[q]));
        }
        assert forall|p: int, q: int| 0 <= p < q < shorter_b.len() implies text_before(
            #[trigger] shorter_b[p],
            #[trigger] shorter_b[q],
        ) by {
            assert(text_before(b[p], b[q]));
        }
        lemma_ascending_unique(shorter_a, shorter_b);
        assert(a =~= shorter_a.push(x));
        assert(b =~= shorter_b.push(y));
    } else {
        assert(a =~= b);
    }
}

} // verus!
