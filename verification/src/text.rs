//! Small verified helpers on strings, stated over their `Seq<char>` views.

use vstd::prelude::*;
use vstd::string::*;

verus! {

/// `text` ends with `suffix`.
pub open spec fn has_suffix(text: Seq<char>, suffix: Seq<char>) -> bool {
    suffix.len() <= text.len() && text.subrange(text.len() - suffix.len(), text.len() as int)
        == suffix
}

/// `text` starts with `prefix`.
pub open spec fn has_prefix(text: Seq<char>, prefix: Seq<char>) -> bool {
    prefix.len() <= text.len() && text.subrange(0, prefix.len() as int) == prefix
}

/// `text` without its last `count` characters.
pub open spec fn drop_tail(text: Seq<char>, count: nat) -> Seq<char> {
    text.subrange(0, text.len() - count)
}

/// `text` with every occurrence of `needle` taken out, searching from the
/// left and resuming after each occurrence. An empty needle removes nothing.
pub open spec fn remove_all(text: Seq<char>, needle: Seq<char>) -> Seq<char>
    decreases text.len(),
{
    if needle.len() == 0 || text.len() < needle.len() {
        text
    } else if has_prefix(text, needle) {
        remove_all(text.subrange(needle.len() as int, text.len() as int), needle)
    } else {
        seq![text[0]] + remove_all(text.subrange(1, text.len() as int), needle)
    }
}

/// The texts in `parts`, in order, with `separator` between neighbours.
pub open spec fn joined(parts: Seq<Seq<char>>, separator: Seq<char>) -> Seq<char>
    decreases parts.len(),
{
    if parts.len() == 0 {
        Seq::empty()
    } else if parts.len() == 1 {
        parts[0]
    } else {
        joined(parts.drop_last(), separator) + separator + parts.last()
    }
}

/// The views of a vector of strings.
pub open spec fn views(items: Seq<String>) -> Seq<Seq<char>> {
    Seq::new(items.len(), |i: int| items[i]@)
}

pub fn same_text(a: &str, b: &str) -> (r: bool)
    ensures
        r == (a@ == b@),
{
    String::from_str(a) == String::from_str(b)
}

pub fn ends_with(text: &str, suffix: &str) -> (r: bool)
    ensures
        r == has_suffix(text@, suffix@),
{
    let n = text.unicode_len();
    let m = suffix.unicode_len();
    if m > n {
        return false;
    }
    same_text(text.substring_char(n - m, n), suffix)
}

/// The text before `suffix` when `text` ends with it.
pub fn strip_suffix(text: &str, suffix: &str) -> (r: Option<String>)
    ensures
        r is Some <==> has_suffix(text@, suffix@),
        r is Some ==> r.unwrap()@ == drop_tail(text@, suffix@.len()),
{
    let n = text.unicode_len();
    let m = suffix.unicode_len();
    if m > n {
        return None;
    }
    if same_text(text.substring_char(n - m, n), suffix) {
        Some(String::from_str(text.substring_char(0, n - m)))
    } else {
        None
    }
}

pub fn contains_char(text: &str, wanted: char) -> (r: bool)
    ensures
        r == text@.contains(wanted),
{
    let n = text.unicode_len();
    let mut i: usize = 0;
    while i < n
        invariant
            n == text@.len(),
            i <= n,
            forall|j: int| 0 <= j < i ==> text@[j] != wanted,
        decreases n - i,
    {
        if text.get_char(i) == wanted {
            return true;
        }
        i = i + 1;
    }
    false
}

/// Removes every occurrence of `needle` from `text`.
pub fn without(text: &str, needle: &str) -> (r: String)
    ensures
        r@ == remove_all(text@, needle@),
{
    let n = text.unicode_len();
    let m = needle.unicode_len();
    let mut out = String::new();
    if m == 0 {
        return String::from_str(text);
    }
    let mut i: usize = 0;
    proof {
        assert(text@.subrange(0, n as int) == text@);
        assert(out@ + text@ == text@);
    }
    while i < n
        invariant
            n == text@.len(),
            m == needle@.len(),
            m > 0,
            i <= n,
            remove_all(text@, needle@) == out@ + remove_all(
                text@.subrange(i as int, n as int),
                needle@,
            ),
        decreases n - i,
    {
        let ghost rest = text@.subrange(i as int, n as int);
        if n - i >= m && same_text(text.substring_char(i, i + m), needle) {
            proof {
                assert(rest.subrange(0, m as int) == text@.subrange(i as int, i + m));
                assert(rest.subrange(m as int, rest.len() as int) == text@.subrange(
                    i + m,
                    n as int,
                ));
            }
            i = i + m;
        } else {
            proof {
                assert(rest.len() >= m ==> rest.subrange(0, m as int) == text@.subrange(
                    i as int,
                    i + m,
                ));
                assert(rest.subrange(1, rest.len() as int) == text@.subrange(i + 1, n as int));
                assert(seq![rest[0]] == text@.subrange(i as int, i + 1));
                if rest.len() < m {
                    lemma_short_text_kept(rest, needle@);
                }
            }
            out.append(text.substring_char(i, i + 1));
            i = i + 1;
        }
    }
    proof {
        assert(text@.subrange(n as int, n as int) == Seq::<char>::empty());
    }
    out
}

/// A text shorter than the needle holds no occurrence of it, so removing
/// character by character gives the text back.
pub proof fn lemma_short_text_kept(text: Seq<char>, needle: Seq<char>)
    requires
        text.len() < needle.len(),
    ensures
        remove_all(text, needle) == text,
{
}

/// Joins `parts` with `separator` between neighbours.
pub fn join(parts: &Vec<String>, separator: &str) -> (r: String)
    ensures
        r@ == joined(views(parts@), separator@),
{
    let mut out = String::new();
    let mut i: usize = 0;
    while i < parts.len()
        invariant
            i <= parts.len(),
            out@ == joined(views(parts@).subrange(0, i as int), separator@),
        decreases parts.len() - i,
    {
        let ghost before = views(parts@).subrange(0, i as int);
        let ghost after = views(parts@).subrange(0, i + 1);
        proof {
            assert(after.drop_last() == before);
            assert(after.last() == parts@[i as int]@);
        }
        if i > 0 {
            out.append(separator);
        }
        out.append(parts[i].as_str());
        proof {
            if i == 0 {
                assert(before.len() == 0);
                assert(out@ == parts@[i as int]@);
            }
        }
        i = i + 1;
    }
    proof {
        assert(views(parts@).subrange(0, parts.len() as int) == views(parts@));
    }
    out
}

/// The character that writes the digit `d`.
pub open spec fn digit_char(d: int) -> char {
    if d == 0 {
        '0'
    } else if d == 1 {
        '1'
    } else if d == 2 {
        '2'
    } else if d == 3 {
        '3'
    } else if d == 4 {
        '4'
    } else if d == 5 {
        '5'
    } else if d == 6 {
        '6'
    } else if d == 7 {
        '7'
    } else if d == 8 {
        '8'
    } else {
        '9'
    }
}

/// The decimal writing of `n`, without leading zeros.
pub open spec fn decimal(n: nat) -> Seq<char>
    decreases n,
{
    if n < 10 {
        seq![digit_char(n as int)]
    } else {
        decimal(n / 10).push(digit_char((n % 10) as int))
    }
}

fn digit_text(d: usize) -> (r: &'static str)
    requires
        d < 10,
    ensures
        r@ == seq![digit_char(d as int)],
{
    proof {
        reveal_strlit("0");
        reveal_strlit("1");
        reveal_strlit("2");
        reveal_strlit("3");
        reveal_strlit("4");
        reveal_strlit("5");
        reveal_strlit("6");
        reveal_strlit("7");
        reveal_strlit("8");
        reveal_strlit("9");
    }
    let r = if d == 0 {
        "0"
    } else if d == 1 {
        "1"
    } else if d == 2 {
        "2"
    } else if d == 3 {
        "3"
    } else if d == 4 {
        "4"
    } else if d == 5 {
        "5"
    } else if d == 6 {
        "6"
    } else if d == 7 {
        "7"
    } else if d == 8 {
        "8"
    } else {
        "9"
    };
    assert(r@ =~= seq![digit_char(d as int)]);
    r
}

/// Writes `n` in decimal.
pub fn decimal_text(n: u64) -> (r: String)
    ensures
        r@ == decimal(n as nat),
    decreases n,
{
    if n < 10 {
        String::from_str(digit_text(n as usize))
    } else {
        let mut out = decimal_text(n / 10);
        out.append(digit_text((n % 10) as usize));
        out
    }
}

/// The decimal writing of `n`, with a `-` before a negative number.
pub open spec fn signed_decimal(n: int) -> Seq<char> {
    if n < 0 {
        "-"@ + decimal((-n) as nat)
    } else {
        decimal(n as nat)
    }
}

/// Writes `n` in decimal.
pub fn integer_text(n: i64) -> (r: String)
    ensures
        r@ == signed_decimal(n as int),
{
    if n < 0 {
        let magnitude: u64 = (-(n + 1)) as u64 + 1;
        let mut out = String::from_str("-");
        out.append(decimal_text(magnitude).as_str());
        out
    } else {
        decimal_text(n as u64)
    }
}

/// `text` in lower case, as `str::to_lowercase` gives it.
pub uninterp spec fn lowercased(text: Seq<char>) -> Seq<char>;

/// Calls `str::to_lowercase`. Trusted: the result is what `lowercased`
/// names.
#[verifier::external_body]
pub(crate) fn to_lowercase(text: &str) -> (r: String)
    ensures
        r@ == lowercased(text@),
{
    text.to_lowercase()
}

} // verus!
