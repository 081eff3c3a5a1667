//! Splitting sequences at the first occurrence of a separator.

use vstd::prelude::*;
use vstd::std_specs::iter::IteratorSpec;

verus! {

/// The index of the first element of `s` equal to `x`, or `s.len()` when no
/// element is.
pub open spec fn first_index_of<T>(s: Seq<T>, x: T) -> int
    decreases s.len(),
{
    if s.len() == 0 || s[0] == x {
        0
    } else {
        1 + first_index_of(s.drop_first(), x)
    }
}

/// `first_index_of` marks an occurrence of `x` that no occurrence precedes.
pub proof fn lemma_first_index_of<T>(s: Seq<T>, x: T)
    ensures
        0 <= first_index_of(s, x) <= s.len(),
        forall|j: int| 0 <= j < first_index_of(s, x) ==> s[j] != x,
        first_index_of(s, x) < s.len() ==> s[first_index_of(s, x)] == x,
        first_index_of(s, x) < s.len() <==> s.contains(x),
    decreases s.len(),
{
    if s.len() == 0 || s[0] == x {
    } else {
        let rest = s.drop_first();
        lemma_first_index_of(rest, x);
        let i = first_index_of(rest, x);
        assert forall|j: int| 0 <= j < 1 + i implies s[j] != x by {
            if j > 0 {
                assert(s[j] == rest[j - 1]);
            }
        }
        if i < rest.len() {
            assert(s[1 + i] == rest[i]);
        }
        if s.contains(x) {
            let k = choose|k: int| 0 <= k < s.len() && s[k] == x;
            assert(rest[k - 1] == x);
        }
    }
}

/// Any index that marks an occurrence of `x` with none before it, or the
/// length of a sequence without `x`, is `first_index_of`.
pub proof fn lemma_first_index_of_unique<T>(s: Seq<T>, x: T, i: int)
    requires
        0 <= i <= s.len(),
        forall|j: int| 0 <= j < i ==> s[j] != x,
        i < s.len() ==> s[i] == x,
    ensures
        first_index_of(s, x) == i,
{
    lemma_first_index_of(s, x);
}

/// The index of the first `target` in `bytes` at or after `start`, or the
/// length of `bytes` when there is none.
pub fn find_byte(bytes: &[u8], start: usize, target: u8) -> (at: usize)
    requires
        start <= bytes.len(),
    ensures
        start <= at <= bytes.len(),
        at - start == first_index_of(bytes@.subrange(start as int, bytes.len() as int), target),
{
    let ghost tail = bytes@.subrange(start as int, bytes.len() as int);
    let mut at = start;
    while at < bytes.len() && bytes[at] != target
        invariant
            start <= at <= bytes.len(),
            tail == bytes@.subrange(start as int, bytes.len() as int),
            forall|j: int| 0 <= j < at - start ==> tail[j] != target,
        decreases bytes.len() - at,
    {
        at = at + 1;
    }
    proof {
        lemma_first_index_of_unique(tail, target, at - start);
    }
    at
}

/// True when `bytes` begin with `prefix`.
pub fn starts_with(bytes: &[u8], prefix: &[u8]) -> (found: bool)
    ensures
        found == prefix@.is_prefix_of(bytes@),
{
    if bytes.len() < prefix.len() {
        return false;
    }
    let mut i: usize = 0;
    while i < prefix.len()
        invariant
            prefix.len() <= bytes.len(),
            i <= prefix.len(),
            forall|j: int| 0 <= j < i ==> prefix@[j] == bytes@[j],
        decreases prefix.len() - i,
    {
        if bytes[i] != prefix[i] {
            assert(bytes@.subrange(0, prefix@.len() as int)[i as int] != prefix@[i as int]);
            return false;
        }
        i = i + 1;
    }
    true
}

/// The parts of `s` before and after the first `sep`, or `None` when `s`
/// holds no `sep`. Later occurrences of `sep` stay in the second part.
pub open spec fn split_first<T>(s: Seq<T>, sep: T) -> Option<(Seq<T>, Seq<T>)> {
    let i = first_index_of(s, sep);
    if i < s.len() {
        Some((s.subrange(0, i), s.subrange(i + 1, s.len() as int)))
    } else {
        None
    }
}

/// A split exists exactly where the separator occurs.
pub proof fn lemma_split_first_exists<T>(s: Seq<T>, sep: T)
    ensures
        split_first(s, sep) is Some <==> s.contains(sep),
{
    lemma_first_index_of(s, sep);
}

/// The first separator wins: `left` and `right` are the parts of `s` exactly
/// when `s` is `left`, one separator and `right`, and `left` holds no
/// separator.
pub proof fn lemma_split_first_parts<T>(s: Seq<T>, sep: T, left: Seq<T>, right: Seq<T>)
    ensures
        split_first(s, sep) == Some((left, right)) <==> s == left + seq![sep] + right
            && !left.contains(sep),
{
    lemma_first_index_of(s, sep);
    let i = first_index_of(s, sep);
    if split_first(s, sep) == Some((left, right)) {
        assert(s =~= left + seq![sep] + right);
        if left.contains(sep) {
            let k = choose|k: int| 0 <= k < left.len() && left[k] == sep;
            assert(s[k] == left[k]);
        }
    }
    if s == left + seq![sep] + right && !left.contains(sep) {
        assert forall|j: int| 0 <= j < left.len() implies s[j] != sep by {
            assert(s[j] == left[j]);
        }
        assert(s[left.len() as int] == sep);
        lemma_first_index_of_unique(s, sep, left.len() as int);
        assert(s.subrange(0, i) =~= left);
        assert(s.subrange(i + 1, s.len() as int) =~= right);
    }
}

/// Splits `text` at its first `sep`.
pub fn split_once(text: &str, sep: char) -> (parts: Option<(String, String)>)
    ensures
        match parts {
            Some((left, right)) => split_first(text@, sep) == Some((left@, right@)),
            None => split_first(text@, sep) is None,
        },
{
    let n = text.unicode_len();
    let mut chars = text.chars();
    let mut i: usize = 0;
    loop
        invariant
            n == text@.len(),
            i <= n,
            chars.obeys_prophetic_iter_laws(),
            chars.remaining() == text@.subrange(i as int, n as int),
            forall|j: int| 0 <= j < i ==> text@[j] != sep,
        decreases n - i,
    {
        match chars.next() {
            Some(c) => {
                if c == sep {
                    proof {
                        lemma_first_index_of_unique(text@, sep, i as int);
                    }
                    let left = text.substring_char(0, i);
                    let right = text.substring_char(i + 1, n);
                    return Some((left.to_owned(), right.to_owned()));
                }
                i = i + 1;
            },
            None => {
                proof {
                    lemma_first_index_of_unique(text@, sep, n as int);
                }
                return None;
            },
        }
    }
}

/// The character of a decimal digit.
pub open spec fn digit_char(digit: nat) -> char
    recommends
        digit < 10,
{
    "0123456789"@[digit as int]
}

/// The decimal numeral of `n`, without leading zeros.
pub open spec fn decimal(n: nat) -> Seq<char>
    decreases n,
{
    if n < 10 {
        seq![digit_char(n)]
    } else {
        decimal(n / 10).push(digit_char(n % 10))
    }
}

/// Writes `n` as a decimal numeral.
pub fn decimal_string(n: usize) -> (numeral: String)
    ensures
        numeral@ == decimal(n as nat),
    decreases n,
{
    let digits = "0123456789";
    proof {
        reveal_strlit("0123456789");
    }
    let digit = digits.substring_ascii(n % 10, n % 10 + 1);
    assert(digit@ =~= seq![digit_char((n % 10) as nat)]);
    if n < 10 {
        String::from_str(digit)
    } else {
        decimal_string(n / 10).concat(digit)
    }
}

} // verus!
