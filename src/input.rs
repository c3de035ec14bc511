use vstd::prelude::*;
use crate::command::{Command, Operation, put};

verus! {

/// `c` is an ASCII decimal digit.
pub open spec fn is_digit(c: char) -> bool {
    '0' <= c && c <= '9'
}

/// The number that the digits `s` denote, most significant first.
pub open spec fn digits_value(s: Seq<char>) -> nat
    decreases s.len(),
{
    if s.len() == 0 {
        0
    } else {
        digits_value(s.drop_last()) * 10 + ((s.last() as u32) - ('0' as u32)) as nat
    }
}

/// The digits of `s`, once an optional leading `+` is taken off.
pub open spec fn unsigned_digits(s: Seq<char>) -> Seq<char> {
    if s.len() > 0 && s[0] == '+' {
        s.subrange(1, s.len() as int)
    } else {
        s
    }
}

/// The `u64` that `s` writes in decimal, with an optional leading `+`:
/// at least one digit, nothing else, and a value that fits.
pub open spec fn parsed_u64(s: Seq<char>) -> Option<u64> {
    let d = unsigned_digits(s);
    if d.len() > 0 && (forall|i: int| 0 <= i < d.len() ==> is_digit(#[trigger] d[i]))
        && digits_value(d) <= u64::MAX {
        Some(digits_value(d) as u64)
    } else {
        None
    }
}

proof fn lemma_digits_value_grows(s: Seq<char>, k: int)
    requires
        0 <= k <= s.len(),
        forall|i: int| 0 <= i < s.len() ==> is_digit(#[trigger] s[i]),
    ensures
        digits_value(s.take(k)) <= digits_value(s),
    decreases s.len() - k,
{
    if k < s.len() {
        lemma_digits_value_grows(s, k + 1);
        assert(s.take(k + 1).drop_last() == s.take(k));
    } else {
        assert(s.take(k) == s);
    }
}

/// Reads a decimal `u64`, with an optional leading `+`.
pub fn parse_u64(s: &str) -> (r: Option<u64>)
    ensures
        r == parsed_u64(s@),
{
    let n = s.unicode_len();
    let mut i: usize = 0;
    if n > 0 && s.get_char(0) == '+' {
        i = 1;
    }
    let ghost d = unsigned_digits(s@);
    let ghost start = i as int;
    if i == n {
        return None;
    }
    let mut acc: u64 = 0;
    assert(d == s@.subrange(start, n as int));
    assert(d.take(0) == Seq::<char>::empty());
    while i < n
        invariant
            n == s@.len(),
            0 <= start <= i <= n,
            start < n,
            d == s@.subrange(start, n as int),
            d == unsigned_digits(s@),
            forall|j: int| 0 <= j < i - start ==> is_digit(#[trigger] d[j]),
            acc as nat == digits_value(d.take(i - start)),
        decreases n - i,
    {
        let c = s.get_char(i);
        assert(d[i - start] == c);
        if c < '0' || c > '9' {
            assert(!is_digit(d[i - start]));
            return None;
        }
        let next: u128 = acc as u128 * 10 + (c as u32 - '0' as u32) as u128;
        assert(d.take(i + 1 - start).drop_last() == d.take(i - start));
        assert(d.take(i + 1 - start).last() == c);
        assert(next == digits_value(d.take(i + 1 - start)));
        if next > u64::MAX as u128 {
            proof {
                if forall|j: int| 0 <= j < d.len() ==> is_digit(#[trigger] d[j]) {
                    lemma_digits_value_grows(d, i + 1 - start);
                }
            }
            return None;
        }
        acc = next as u64;
        i = i + 1;
    }
    assert(d.take(n - start) == d);
    Some(acc)
}

/// What the client's put prompt reads: a key and a value, separated by a
/// space, words after them being ignored.
pub open spec fn put_input(s: Seq<char>) -> Option<(Seq<char>, u64)> {
    if exists|i: int| 0 <= i < s.len() && s[i] == ' ' {
        let i = choose|i: int|
            0 <= i < s.len() && s[i] == ' ' && forall|j: int| 0 <= j < i ==> s[j] != ' ';
        let rest = s.subrange(i + 1, s.len() as int);
        let word = if exists|j: int| 0 <= j < rest.len() && rest[j] == ' ' {
            let j = choose|j: int|
                0 <= j < rest.len() && rest[j] == ' ' && forall|m: int|
                    0 <= m < j ==> rest[m] != ' ';
            rest.take(j)
        } else {
            rest
        };
        match parsed_u64(word) {
            Some(v) => Some((s.take(i), v)),
            None => None,
        }
    } else {
        None
    }
}

/// The position of the first space in `s` from `from` on, or its length.
fn find_space(s: &str, from: usize) -> (r: usize)
    requires
        from <= s@.len(),
    ensures
        from <= r <= s@.len(),
        r < s@.len() ==> s@[r as int] == ' ',
        forall|j: int| from <= j < r ==> s@[j] != ' ',
{
    let n = s.unicode_len();
    let mut i = from;
    while i < n
        invariant
            n == s@.len(),
            from <= i <= n,
            forall|j: int| from <= j < i ==> s@[j] != ' ',
        decreases n - i,
    {
        if s.get_char(i) == ' ' {
            return i;
        }
        i = i + 1;
    }
    i
}

/// The put command that the client's input line asks for, if it is one.
pub fn parse_put_input(s: &str) -> (r: Option<Command>)
    ensures
        match put_input(s@) {
            Some((key, value)) => r is Some && r->0.operation == Operation::Put
                && r->0.key@ == key && r->0.value == value,
            None => r is None,
        },
{
    let n = s.unicode_len();
    let i = find_space(s, 0);
    if i == n {
        return None;
    }
    let rest = s.substring_char(i + 1, n);
    let j = find_space(rest, 0);
    let word = rest.substring_char(0, j);
    proof {
        let ii = choose|ii: int|
            0 <= ii < s@.len() && s@[ii] == ' ' && forall|m: int| 0 <= m < ii ==> s@[m] != ' ';
        if ii < i {
            assert(s@[ii] != ' ');
        }
        if ii > i {
            assert(s@[i as int] != ' ');
        }
        assert(rest@ == s@.subrange(i + 1, s@.len() as int));
        if j < rest@.len() {
            let jj = choose|jj: int|
                0 <= jj < rest@.len() && rest@[jj] == ' ' && forall|m: int|
                    0 <= m < jj ==> rest@[m] != ' ';
            if jj < j {
                assert(rest@[jj] != ' ');
            }
            if jj > j {
                assert(rest@[j as int] != ' ');
            }
        } else {
            assert(word@ == rest@);
        }
    }
    match parse_u64(word) {
        Some(v) => Some(put(String::from_str(s.substring_char(0, i)), v)),
        None => None,
    }
}

} // verus!
