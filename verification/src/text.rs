//! Small text helpers: comparison, affixes and numbers in decimal and
//! hexadecimal.

use vstd::prelude::*;

verus! {

/// The digit that stands for `d`, from `0` to `9` and then from `A`.
pub open spec fn digit(d: int) -> char {
    if d < 10 {
        (48 + d) as char
    } else {
        (55 + d) as char
    }
}

/// `n` in decimal, without leading zeros.
pub open spec fn decimal(n: nat) -> Seq<char>
    decreases n,
{
    if n < 10 {
        seq![digit(n as int)]
    } else {
        decimal(n / 10).push(digit((n % 10) as int))
    }
}

/// The last `places` hexadecimal digits of `n`, in upper case.
pub open spec fn hexadecimal(n: nat, places: nat) -> Seq<char>
    decreases places,
{
    if places == 0 {
        Seq::empty()
    } else {
        hexadecimal(n / 16, (places - 1) as nat).push(digit((n % 16) as int))
    }
}

/// The last `places` decimal digits of `n`, leading zeros kept.
pub open spec fn padded(n: nat, places: nat) -> Seq<char>
    decreases places,
{
    if places == 0 {
        Seq::empty()
    } else {
        padded(n / 10, (places - 1) as nat).push(digit((n % 10) as int))
    }
}

/// Whether `needle` occurs in `s` at `at`.
pub open spec fn occurs_at(s: Seq<char>, needle: Seq<char>, at: int) -> bool {
    0 <= at && at + needle.len() <= s.len() && s.subrange(at, at + needle.len()) == needle
}

/// Whether `needle` occurs anywhere in `s`.
pub open spec fn occurs(s: Seq<char>, needle: Seq<char>) -> bool {
    exists|at: int| occurs_at(s, needle, at)
}

/// `c` with an ASCII capital turned into its small letter.
pub open spec fn ascii_lower(c: char) -> char {
    if 'A' <= c && c <= 'Z' {
        (c as int + 32) as char
    } else {
        c
    }
}

/// Whether two texts are the same once ASCII capitals are ignored.
pub open spec fn same_ignoring_ascii_case(a: Seq<char>, b: Seq<char>) -> bool {
    a.len() == b.len() && forall|i: int|
        0 <= i < a.len() ==> ascii_lower(#[trigger] a[i]) == ascii_lower(b[i])
}

/// Compares two texts.
pub fn same(a: &str, b: &str) -> (r: bool)
    ensures
        r == (a@ == b@),
{
    let n: usize = a.unicode_len();
    if n != b.unicode_len() {
        return false;
    }
    let mut i: usize = 0;
    while i < n
        invariant
            i <= n,
            n == a@.len(),
            n == b@.len(),
            forall|j: int| 0 <= j < i ==> a@[j] == b@[j],
        decreases n - i,
    {
        if a.get_char(i) != b.get_char(i) {
            return false;
        }
        i += 1;
    }
    assert(a@ =~= b@);
    true
}

/// Whether `needle` stands in `s` at the character `at`.
pub fn stands_at(s: &str, needle: &str, at: usize) -> (r: bool)
    ensures
        r == occurs_at(s@, needle@, at as int),
{
    let n: usize = needle.unicode_len();
    let len: usize = s.unicode_len();
    if at > len || n > len - at {
        return false;
    }
    let mut i: usize = 0;
    while i < n
        invariant
            i <= n,
            n == needle@.len(),
            at + n <= s@.len(),
            s@.len() <= usize::MAX,
            forall|j: int| 0 <= j < i ==> s@[at + j] == needle@[j],
        decreases n - i,
    {
        if s.get_char(at + i) != needle.get_char(i) {
            assert(s@.subrange(at as int, at + n)[i as int] != needle@[i as int]);
            return false;
        }
        i += 1;
    }
    assert(s@.subrange(at as int, at + n) =~= needle@);
    true
}

/// Whether `s` begins with `prefix`.
pub fn starts_with(s: &str, prefix: &str) -> (r: bool)
    ensures
        r == occurs_at(s@, prefix@, 0),
{
    stands_at(s, prefix, 0)
}

/// Whether `needle` occurs in `s`.
pub fn contains(s: &str, needle: &str) -> (r: bool)
    ensures
        r == occurs(s@, needle@),
{
    let len: usize = s.unicode_len();
    let n: usize = needle.unicode_len();
    if n > len {
        return false;
    }
    let last: usize = len - n;
    let mut at: usize = 0;
    loop
        invariant
            at <= last,
            len == s@.len(),
            n == needle@.len(),
            last == len - n,
            n <= len,
            forall|k: int| 0 <= k < at ==> !occurs_at(s@, needle@, k),
        decreases last - at,
    {
        if stands_at(s, needle, at) {
            return true;
        }
        if at == last {
            assert forall|k: int| !occurs_at(s@, needle@, k) by {
                if occurs_at(s@, needle@, k) {
                    assert(k <= last);
                }
            }
            return false;
        }
        at += 1;
    }
}

/// What follows `prefix` in `s`, where `s` begins with it.
pub fn strip_prefix(s: &str, prefix: &str) -> (r: Option<String>)
    ensures
        match r {
            Some(rest) => s@ == prefix@ + rest@,
            None => !occurs_at(s@, prefix@, 0),
        },
        r is Some == occurs_at(s@, prefix@, 0),
{
    if starts_with(s, prefix) {
        let rest = s.substring_char(prefix.unicode_len(), s.unicode_len());
        assert(s@ =~= prefix@ + rest@) by {
            assert(s@ =~= s@.subrange(0, prefix@.len() as int) + rest@);
        }
        Some(rest.to_owned())
    } else {
        None
    }
}

/// What comes before `suffix` in `s`, where `s` ends with it.
pub fn strip_suffix(s: &str, suffix: &str) -> (r: Option<String>)
    ensures
        match r {
            Some(rest) => s@ == rest@ + suffix@,
            None => !occurs_at(s@, suffix@, s@.len() - suffix@.len()),
        },
        r is Some == occurs_at(s@, suffix@, s@.len() - suffix@.len()),
{
    let len: usize = s.unicode_len();
    let n: usize = suffix.unicode_len();
    if n <= len && stands_at(s, suffix, len - n) {
        let rest = s.substring_char(0, len - n);
        assert(s@ =~= rest@ + suffix@) by {
            assert(s@ =~= rest@ + s@.subrange(len - n, len as int));
        }
        Some(rest.to_owned())
    } else {
        None
    }
}

/// The characters of a text, in order.
pub fn characters(s: &str) -> (r: Vec<char>)
    ensures
        r@ == s@,
{
    let n: usize = s.unicode_len();
    let mut out: Vec<char> = Vec::new();
    let mut i: usize = 0;
    while i < n
        invariant
            i <= n,
            n == s@.len(),
            out@ == s@.take(i as int),
        decreases n - i,
    {
        out.push(s.get_char(i));
        assert(out@ =~= s@.take(i + 1));
        i += 1;
    }
    assert(s@.take(n as int) =~= s@);
    out
}

/// `c` with an ASCII capital turned into its small letter.
pub fn to_ascii_lower(c: char) -> (r: char)
    ensures
        r == ascii_lower(c),
{
    if 'A' <= c && c <= 'Z' {
        let code: u8 = c as u8;
        (code + 32) as char
    } else {
        c
    }
}

/// Compares two texts, ASCII capitals ignored.
pub fn same_without_case(a: &str, b: &str) -> (r: bool)
    ensures
        r == same_ignoring_ascii_case(a@, b@),
{
    let n: usize = a.unicode_len();
    if n != b.unicode_len() {
        return false;
    }
    let mut i: usize = 0;
    while i < n
        invariant
            i <= n,
            n == a@.len(),
            n == b@.len(),
            forall|j: int| 0 <= j < i ==> ascii_lower(a@[j]) == ascii_lower(b@[j]),
        decreases n - i,
    {
        if to_ascii_lower(a.get_char(i)) != to_ascii_lower(b.get_char(i)) {
            assert(ascii_lower(a@[i as int]) != ascii_lower(b@[i as int]));
            return false;
        }
        i += 1;
    }
    true
}

/// The text of one digit.
pub fn digit_text(d: u32) -> (r: &'static str)
    requires
        d < 16,
    ensures
        r@ == seq![digit(d as int)],
{
    proof {
        reveal_strlit("0");
        reveal_strlit("1");
        reveal_strlit("2");
        reveal_strlit("3");
        reveal_strlit("4");
        reveal_strlit("5");
        reveal_strlit("6");
        reveal_strlit("7");
        reveal_strlit("8");
        reveal_strlit("9");
        reveal_strlit("A");
        reveal_strlit("B");
        reveal_strlit("C");
        reveal_strlit("D");
        reveal_strlit("E");
        reveal_strlit("F");
    }
    match d {
        0 => "0",
        1 => "1",
        2 => "2",
        3 => "3",
        4 => "4",
        5 => "5",
        6 => "6",
        7 => "7",
        8 => "8",
        9 => "9",
        10 => "A",
        11 => "B",
        12 => "C",
        13 => "D",
        14 => "E",
        _ => "F",
    }
}

/// Writes `n` in decimal.
pub fn decimal_text(n: u64) -> (r: String)
    ensures
        r@ == decimal(n as nat),
    decreases n,
{
    let last: u32 = (n % 10) as u32;
    if n < 10 {
        digit_text(last).to_owned()
    } else {
        let mut out = decimal_text(n / 10);
        out.append(digit_text(last));
        assert(out@ =~= decimal(n as nat));
        out
    }
}

/// A number in decimal, with a minus sign where it is negative.
pub open spec fn signed(n: int) -> Seq<char> {
    if n < 0 {
        "-"@ + decimal((-n) as nat)
    } else {
        decimal(n as nat)
    }
}

/// Writes `n` in decimal, with a minus sign where it is negative.
pub fn signed_text(n: i64) -> (r: String)
    ensures
        r@ == signed(n as int),
{
    if n >= 0 {
        decimal_text(n as u64)
    } else {
        let mut out = "-".to_owned();
        let below: u64 = (-(n + 1)) as u64;
        out.append(decimal_text(below + 1).as_str());
        out
    }
}

/// Writes the last `places` hexadecimal digits of `n`.
pub fn hexadecimal_text(n: u32, places: u32) -> (r: String)
    ensures
        r@ == hexadecimal(n as nat, places as nat),
    decreases places,
{
    if places == 0 {
        let out = String::new();
        assert(out@ =~= hexadecimal(n as nat, 0));
        out
    } else {
        let mut out = hexadecimal_text(n / 16, places - 1);
        out.append(digit_text(n % 16));
        assert(out@ =~= hexadecimal(n as nat, places as nat));
        out
    }
}

/// Writes the last `places` decimal digits of `n`.
pub fn padded_text(n: u64, places: u32) -> (r: String)
    ensures
        r@ == padded(n as nat, places as nat),
    decreases places,
{
    if places == 0 {
        let out = String::new();
        assert(out@ =~= padded(n as nat, 0));
        out
    } else {
        let mut out = padded_text(n / 10, places - 1);
        let last: u32 = (n % 10) as u32;
        out.append(digit_text(last));
        assert(out@ =~= padded(n as nat, places as nat));
        out
    }
}

/// The number that a digit stands for.
pub open spec fn digit_value(c: char) -> int {
    if c <= '9' {
        c as int - 48
    } else {
        c as int - 55
    }
}

/// The number that digits stand for, the last counting ones.
pub open spec fn value_of(digits: Seq<char>, base: int) -> int
    decreases digits.len(),
{
    if digits.len() == 0 {
        0
    } else {
        value_of(digits.drop_last(), base) * base + digit_value(digits.last())
    }
}

/// `base` multiplied by itself so many times.
pub open spec fn power(base: nat, times: nat) -> nat
    decreases times,
{
    if times == 0 {
        1
    } else {
        base * power(base, (times - 1) as nat)
    }
}

proof fn lemma_decimal_value(n: nat)
    ensures
        value_of(decimal(n), 10) == n,
        decimal(n).len() > 0,
        n > 0 ==> decimal(n)[0] != '0',
        n == 0 ==> decimal(n) == seq!['0'],
        forall|i: int| 0 <= i < decimal(n).len() ==> '0' <= #[trigger] decimal(n)[i] <= '9',
    decreases n,
{
    reveal_with_fuel(value_of, 2);
    if n < 10 {
        assert(decimal(n).drop_last() =~= seq![]);
    } else {
        let front = decimal(n / 10);
        lemma_decimal_value(n / 10);
        assert(decimal(n).drop_last() =~= front);
        assert(decimal(n)[0] == front[0]);
        assert forall|i: int| 0 <= i < decimal(n).len() implies '0' <= #[trigger] decimal(n)[i]
            <= '9' by {
            if i < front.len() {
                assert(decimal(n)[i] == front[i]);
            }
        }
    }
}

proof fn lemma_padded_value(n: nat, places: nat)
    ensures
        padded(n, places).len() == places,
        n < power(10, places) ==> value_of(padded(n, places), 10) == n,
    decreases places,
{
    if places > 0 {
        let less = (places - 1) as nat;
        lemma_padded_value(n / 10, less);
        assert(padded(n, places).drop_last() =~= padded(n / 10, less));
    }
}

proof fn lemma_hexadecimal_value(n: nat, places: nat)
    ensures
        hexadecimal(n, places).len() == places,
        n < power(16, places) ==> value_of(hexadecimal(n, places), 16) == n,
    decreases places,
{
    if places > 0 {
        let less = (places - 1) as nat;
        lemma_hexadecimal_value(n / 16, less);
        assert(hexadecimal(n, places).drop_last() =~= hexadecimal(n / 16, less));
    }
}

/// A number is written with the digits that stand for it, and no zero in front;
/// a negative one with a minus sign before the digits of its absolute value.
pub proof fn law_a_number_is_written_in_its_digits(n: u64, r: String, s: i64, t: String)
    requires
        call_ensures(decimal_text, (n,), r),
        call_ensures(signed_text, (s,), t),
    ensures
        value_of(r@, 10) == n,
        r@.len() > 0,
        n > 0 ==> r@[0] != '0',
        forall|i: int| 0 <= i < r@.len() ==> '0' <= #[trigger] r@[i] <= '9',
        s >= 0 ==> value_of(t@, 10) == s,
        s < 0 ==> t@[0] == '-' && value_of(t@.skip(1), 10) == -s,
{
    lemma_decimal_value(n as nat);
    if s >= 0 {
        lemma_decimal_value(s as nat);
    } else {
        reveal_strlit("-");
        lemma_decimal_value((-s) as nat);
        assert(t@.skip(1) =~= decimal((-s) as nat));
    }
}

/// A number that fits in so many places is written in them, zeros in front.
pub proof fn law_a_number_is_written_in_its_places(
    n: u64,
    places: u32,
    r: String,
    m: u32,
    s: String,
)
    requires
        call_ensures(padded_text, (n, places), r),
        call_ensures(hexadecimal_text, (m, places), s),
    ensures
        r@.len() == places && s@.len() == places,
        n < power(10, places as nat) ==> value_of(r@, 10) == n,
        m < power(16, places as nat) ==> value_of(s@, 16) == m,
{
    lemma_padded_value(n as nat, places as nat);
    lemma_hexadecimal_value(m as nat, places as nat);
}

/// A text is cut at what it begins or ends with: what is put in front or behind
/// is taken off again, and nothing else is.
pub proof fn law_what_was_added_is_taken_off(
    s: &str,
    affix: &str,
    rest: Seq<char>,
    front: Option<String>,
    back: Option<String>,
    begins: bool,
)
    requires
        call_ensures(strip_prefix, (s, affix), front),
        call_ensures(strip_suffix, (s, affix), back),
        call_ensures(starts_with, (s, affix), begins),
    ensures
        s@ == affix@ + rest ==> begins && front is Some && front->0@ == rest,
        s@ == rest + affix@ ==> back is Some && back->0@ == rest,
        front is Some ==> s@ == affix@ + front->0@,
        back is Some ==> s@ == back->0@ + affix@,
        begins <==> front is Some,
{
    let n = affix@.len() as int;
    if s@ == affix@ + rest {
        assert(s@.subrange(0, n) =~= affix@);
        let found = front->0@;
        assert(found =~= (affix@ + found).skip(n));
        assert(rest =~= (affix@ + rest).skip(n));
    }
    if s@ == rest + affix@ {
        let k = rest.len() as int;
        assert(s@.subrange(k, k + n) =~= affix@);
        let found = back->0@;
        assert(found.len() == rest.len());
        assert(found =~= (found + affix@).take(k));
        assert(rest =~= (rest + affix@).take(k));
    }
}

/// A text holds another exactly where it is that one with something before and
/// behind it, which may be nothing.
pub proof fn law_a_text_holds_what_stands_in_it(
    s: &str,
    needle: &str,
    before: Seq<char>,
    after: Seq<char>,
    r: bool,
    at: usize,
    there: bool,
)
    requires
        call_ensures(contains, (s, needle), r),
        call_ensures(stands_at, (s, needle, at), there),
    ensures
        s@ == before + needle@ + after ==> r,
        s@ == before + needle@ + after && at == before.len() ==> there,
        r ==> exists|k: int| #![trigger s@.take(k)]
            0 <= k && k + needle@.len() <= s@.len() && s@ == s@.take(k) + needle@ + s@.skip(
                k + needle@.len(),
            ),
        there ==> s@ == s@.take(at as int) + needle@ + s@.skip(at + needle@.len()),
{
    let n = needle@.len() as int;
    if s@ == before + needle@ + after {
        let k = before.len() as int;
        assert(s@.subrange(k, k + n) =~= needle@);
        assert(occurs_at(s@, needle@, k));
    }
    if r {
        let k = choose|k: int| occurs_at(s@, needle@, k);
        assert(s@ =~= s@.take(k) + s@.subrange(k, k + n) + s@.skip(k + n));
    }
    if there {
        let k = at as int;
        assert(s@ =~= s@.take(k) + s@.subrange(k, k + n) + s@.skip(k + n));
    }
}

/// Two texts are the same where their characters are, and the characters of a
/// text are those it has.
pub proof fn law_texts_are_compared_by_their_characters(
    a: &str,
    b: &str,
    r: bool,
    cs: Vec<char>,
    ds: Vec<char>,
)
    requires
        call_ensures(same, (a, b), r),
        call_ensures(characters, (a,), cs),
        call_ensures(characters, (b,), ds),
    ensures
        r <==> cs@ == ds@,
        cs@ == a@,
{
}

/// Only the capitals of ASCII are made small, each into its own small letter,
/// and small letters stay.
pub proof fn law_only_capitals_are_made_small(c: char, r: char, again: char)
    requires
        call_ensures(to_ascii_lower, (c,), r),
        call_ensures(to_ascii_lower, (r,), again),
    ensures
        again == r,
        'A' <= c && c <= 'Z' ==> r as int == c as int + 32,
        !('A' <= c && c <= 'Z') ==> r == c,
{
}

/// Capitals aside, texts are the same where each character is; texts that are
/// the same are so with capitals too.
pub proof fn law_capitals_do_not_tell_texts_apart(
    a: &str,
    b: &str,
    r: bool,
    back: bool,
    equal: bool,
    i: int,
    x: char,
    y: char,
)
    requires
        call_ensures(same_without_case, (a, b), r),
        call_ensures(same_without_case, (b, a), back),
        call_ensures(same, (a, b), equal),
        0 <= i < a@.len(),
        i < b@.len(),
        call_ensures(to_ascii_lower, (a@[i],), x),
        call_ensures(to_ascii_lower, (b@[i],), y),
    ensures
        r <==> back,
        equal ==> r,
        r ==> a@.len() == b@.len() && x == y,
        a@.len() == b@.len() && !r ==> exists|k: int|
            0 <= k < a@.len() && ascii_lower(#[trigger] a@[k]) != ascii_lower(b@[k]),
{
}

/// A digit is written as the character that stands for it.
pub proof fn law_a_digit_stands_for_its_number(d: u32, r: &'static str)
    requires
        d < 16,
        call_ensures(digit_text, (d,), r),
    ensures
        r@.len() == 1,
        digit_value(r@[0]) == d,
        ('0' <= r@[0] <= '9') || ('A' <= r@[0] <= 'F'),
{
}

} // verus!
