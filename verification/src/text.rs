//! Character-level text operations, each stated over sequences of characters.

use vstd::prelude::*;
use vstd::utf8::{decode_utf8, valid_utf8};

verus! {

/// Whether `pat` stands in `s` at position `i`.
pub open spec fn occurs_at(s: Seq<char>, pat: Seq<char>, i: int) -> bool {
    0 <= i && i + pat.len() <= s.len() && s.subrange(i, i + pat.len()) == pat
}

/// Whether `pat` stands somewhere in `s`.
pub open spec fn holds(s: Seq<char>, pat: Seq<char>) -> bool {
    exists|i: int| occurs_at(s, pat, i)
}

/// Whether `c` has the Unicode property White_Space.
pub open spec fn white(c: char) -> bool {
    let n = c as int;
    ||| 0x09 <= n <= 0x0d
    ||| n == 0x20
    ||| n == 0x85
    ||| n == 0xa0
    ||| n == 0x1680
    ||| 0x2000 <= n <= 0x200a
    ||| n == 0x2028
    ||| n == 0x2029
    ||| n == 0x202f
    ||| n == 0x205f
    ||| n == 0x3000
}

/// `s` without the white space at its two ends.
pub open spec fn trimmed(s: Seq<char>) -> Seq<char>
    decreases s.len(),
{
    if s.len() == 0 {
        s
    } else if white(s[0]) {
        trimmed(s.skip(1))
    } else if white(s.last()) {
        trimmed(s.drop_last())
    } else {
        s
    }
}

/// `s` with every occurrence of `from`, taken from the left and without
/// overlap, exchanged for `to`.
pub open spec fn replaced(s: Seq<char>, from: Seq<char>, to: Seq<char>) -> Seq<char>
    decreases s.len(),
{
    if from.len() == 0 || s.len() < from.len() {
        s
    } else if occurs_at(s, from, 0) {
        to + replaced(s.skip(from.len() as int), from, to)
    } else {
        seq![s[0]] + replaced(s.skip(1), from, to)
    }
}

/// The position of the first `c` in `s`, or the length of `s` where there is none.
pub open spec fn first_at(s: Seq<char>, c: char) -> int
    decreases s.len(),
{
    if s.len() == 0 || s[0] == c {
        0
    } else {
        1 + first_at(s.skip(1), c)
    }
}

/// The position of the last `c` in `s`, or -1 where there is none.
pub open spec fn last_at(s: Seq<char>, c: char) -> int
    decreases s.len(),
{
    if s.len() == 0 {
        -1
    } else if s.last() == c {
        s.len() - 1
    } else {
        last_at(s.drop_last(), c)
    }
}

/// `s` without a carriage return at its end.
pub open spec fn without_return(s: Seq<char>) -> Seq<char> {
    if s.len() > 0 && s.last() == '\r' {
        s.drop_last()
    } else {
        s
    }
}

/// The lines of `s`. A line ends in a line feed, before which one carriage
/// return is dropped; the last line may lack the line feed.
pub open spec fn lines_of(s: Seq<char>) -> Seq<Seq<char>>
    decreases s.len(),
{
    if s.len() == 0 {
        seq![]
    } else {
        let n = first_at(s, '\n');
        if 0 <= n < s.len() {
            seq![without_return(s.take(n))] + lines_of(s.skip(n + 1))
        } else {
            seq![s]
        }
    }
}

/// Whether `c` is one of the ten ASCII digits.
pub open spec fn digit(c: char) -> bool {
    '0' <= c <= '9'
}

/// The number that a row of digits stands for.
pub open spec fn digits_value(s: Seq<char>) -> nat
    decreases s.len(),
{
    if s.len() == 0 {
        0
    } else {
        digits_value(s.drop_last()) * 10 + (s.last() as nat - '0' as nat) as nat
    }
}

/// Whether `s` holds digits only.
pub open spec fn all_digits(s: Seq<char>) -> bool {
    forall|i: int| 0 <= i < s.len() ==> digit(#[trigger] s[i])
}

/// `s` without a plus sign at its start.
pub open spec fn without_plus(s: Seq<char>) -> Seq<char> {
    if s.len() > 0 && s[0] == '+' {
        s.skip(1)
    } else {
        s
    }
}

/// The number that `s` writes in decimal: digits, with an optional plus sign
/// before them.
pub open spec fn number_of(s: Seq<char>) -> Option<nat> {
    let d = without_plus(s);
    if d.len() > 0 && all_digits(d) {
        Some(digits_value(d))
    } else {
        None
    }
}

/// `n` in decimal.
pub open spec fn decimal(n: nat) -> Seq<char>
    decreases n,
{
    if n < 10 {
        seq![(n + '0' as nat) as char]
    } else {
        decimal(n / 10) + seq![((n % 10) + '0' as nat) as char]
    }
}

/// `n` in decimal, with a minus sign before it where it is negative.
pub open spec fn signed_decimal(n: int) -> Seq<char> {
    if n < 0 {
        seq!['-'] + decimal((-n) as nat)
    } else {
        decimal(n as nat)
    }
}

/// The characters of a string.
pub fn chars_of(s: &str) -> (v: Vec<char>)
    ensures
        v@ == s@,
{
    let mut v: Vec<char> = Vec::new();
    for c in it: s.chars()
        invariant
            v@ == it.seq().take(it.index() as int),
            it.seq() == s@,
    {
        v.push(c);
    }
    v
}

/// Whether `s` holds ASCII characters only.
pub open spec fn ascii(s: Seq<char>) -> bool {
    forall|i: int| 0 <= i < s.len() ==> (#[trigger] s[i]) as int <= 0x7f
}

/// `c`, with a capital letter of ASCII made small.
pub open spec fn ascii_lower_char(c: char) -> char {
    if 'A' <= c <= 'Z' {
        (c as u8 + 32) as char
    } else {
        c
    }
}

/// `c`, with a small letter of ASCII made capital.
pub open spec fn ascii_upper_char(c: char) -> char {
    if 'a' <= c <= 'z' {
        (c as u8 - 32) as char
    } else {
        c
    }
}

/// `s` with the capital letters of ASCII made small.
pub open spec fn ascii_lower(s: Seq<char>) -> Seq<char> {
    s.map_values(|c: char| ascii_lower_char(c))
}

/// `s` with the small letters of ASCII made capital.
pub open spec fn ascii_upper(s: Seq<char>) -> Seq<char> {
    s.map_values(|c: char| ascii_upper_char(c))
}

/// What `str::to_lowercase` gives for a string of these characters.
pub uninterp spec fn lowercase(s: Seq<char>) -> Seq<char>;

/// `str::to_lowercase` depends on the characters of the string alone. In a text of
/// ASCII it makes the capital letters small and keeps all else; what it makes of other
/// characters follows the Unicode tables and is not stated.
pub assume_specification[ str::to_lowercase ](s: &str) -> (r: String)
    ensures
        r@ == lowercase(s@),
        ascii(s@) ==> r@ == ascii_lower(s@),
;

/// What `String::from_utf8_lossy` gives for these bytes.
pub uninterp spec fn lossy(bytes: Seq<u8>) -> Seq<char>;

/// Whether the text of these bytes is what they encode, where they are UTF-8.
pub open spec fn utf8_is_read(bytes: Seq<u8>) -> bool {
    valid_utf8(bytes) ==> lossy(bytes) == decode_utf8(bytes)
}

/// Calls `String::from_utf8_lossy`. The text depends on the bytes alone, and is what
/// they encode where they are UTF-8; how other bytes are marked in it is not stated.
#[verifier::external_body]
pub(crate) fn lossy_text(bytes: &[u8]) -> (r: String)
    ensures
        r@ == lossy(bytes@),
        valid_utf8(bytes@) ==> r@ == decode_utf8(bytes@),
{
    String::from_utf8_lossy(bytes).into_owned()
}

/// The part of `s` from character `from` up to character `to`.
pub fn slice_of(s: &str, from: usize, to: usize) -> (r: String)
    requires
        from <= to <= s@.len(),
    ensures
        r@ == s@.subrange(from as int, to as int),
{
    s.substring_char(from, to).to_string()
}

/// The strings of a list of literals.
pub fn owned(items: Vec<&str>) -> (r: Vec<String>)
    ensures
        r.deep_view() == items.deep_view(),
{
    let mut r: Vec<String> = Vec::new();
    let mut i: usize = 0;
    while i < items.len()
        invariant
            i <= items.len(),
            r.len() == i,
            forall|k: int| 0 <= k < i ==> (#[trigger] r@[k])@ == items@[k]@,
        decreases items.len() - i,
    {
        r.push(items[i].to_string());
        i += 1;
    }
    assert(r.deep_view() =~= items.deep_view());
    r
}

/// A copy of a list of strings.
pub fn copy_list(items: &Vec<String>) -> (r: Vec<String>)
    ensures
        r.deep_view() == items.deep_view(),
{
    let mut r: Vec<String> = Vec::new();
    let mut i: usize = 0;
    while i < items.len()
        invariant
            i <= items.len(),
            r.len() == i,
            forall|k: int| 0 <= k < i ==> (#[trigger] r@[k])@ == items@[k]@,
        decreases items.len() - i,
    {
        r.push(items[i].clone());
        i += 1;
    }
    assert(r.deep_view() =~= items.deep_view());
    r
}

/// Whether `p` stands in `v` at position `i`.
fn occurs(v: &Vec<char>, p: &Vec<char>, i: usize) -> (r: bool)
    requires
        i <= v.len(),
    ensures
        r == occurs_at(v@, p@, i as int),
{
    if v.len() - i < p.len() {
        return false;
    }
    let mut j: usize = 0;
    while j < p.len()
        invariant
            j <= p.len(),
            i + p.len() <= v.len(),
            forall|k: int| 0 <= k < j ==> v@[i + k] == p@[k],
        decreases p.len() - j,
    {
        if v[i + j] != p[j] {
            proof {
                let w = v@.subrange(i as int, i + p@.len());
                assert(w[j as int] != p@[j as int]);
            }
            return false;
        }
        j += 1;
    }
    assert(v@.subrange(i as int, i + p@.len()) =~= p@);
    true
}

/// Whether the two strings hold the same characters.
pub fn same(a: &str, b: &str) -> (r: bool)
    ensures
        r == (a@ == b@),
{
    let v = chars_of(a);
    let p = chars_of(b);
    if v.len() != p.len() {
        return false;
    }
    let r = occurs(&v, &p, 0);
    assert(v@.subrange(0, v@.len() as int) =~= v@);
    r
}

/// Whether `s` starts with `pat`.
pub fn starts_with(s: &str, pat: &str) -> (r: bool)
    ensures
        r == occurs_at(s@, pat@, 0),
{
    occurs(&chars_of(s), &chars_of(pat), 0)
}

/// Whether `pat` stands somewhere in `s`.
pub fn contains(s: &str, pat: &str) -> (r: bool)
    ensures
        r == holds(s@, pat@),
{
    let v = chars_of(s);
    let p = chars_of(pat);
    let mut i: usize = 0;
    while i < v.len()
        invariant
            i <= v.len(),
            v@ == s@,
            p@ == pat@,
            forall|k: int| 0 <= k < i ==> !occurs_at(s@, pat@, k),
        decreases v.len() - i,
    {
        if occurs(&v, &p, i) {
            return true;
        }
        i += 1;
    }
    let r = occurs(&v, &p, i);
    proof {
        if !r {
            assert forall|k: int| !occurs_at(s@, pat@, k) by {}
        }
    }
    r
}

/// Whether `c` has the Unicode property White_Space.
pub fn is_white(c: char) -> (r: bool)
    ensures
        r == white(c),
{
    let n = c as u32;
    (0x09 <= n && n <= 0x0d) || n == 0x20 || n == 0x85 || n == 0xa0 || n == 0x1680
        || (0x2000 <= n && n <= 0x200a) || n == 0x2028 || n == 0x2029 || n == 0x202f
        || n == 0x205f || n == 0x3000
}

/// `s` without the white space at its two ends.
pub fn trim(s: &str) -> (r: String)
    ensures
        r@ == trimmed(s@),
{
    let v = chars_of(s);
    let n = v.len();
    let mut a: usize = 0;
    let mut b: usize = n;
    proof {
        assert(s@.subrange(0, n as int) =~= s@);
    }
    while a < b && is_white(v[a])
        invariant
            a <= b == n == v@.len(),
            v@ == s@,
            trimmed(s@) == trimmed(s@.subrange(a as int, b as int)),
        decreases b - a,
    {
        proof {
            assert(s@.subrange(a as int, b as int).skip(1) =~= s@.subrange(a + 1, b as int));
        }
        a += 1;
    }
    while a < b && is_white(v[b - 1])
        invariant
            a <= b <= n == v@.len(),
            v@ == s@,
            a < n ==> !white(v@[a as int]),
            trimmed(s@) == trimmed(s@.subrange(a as int, b as int)),
        decreases b - a,
    {
        proof {
            assert(s@.subrange(a as int, b as int).drop_last() =~= s@.subrange(a as int, b - 1));
        }
        b -= 1;
    }
    slice_of(s, a, b)
}

/// `s` with every occurrence of `from` exchanged for `to`.
pub fn replace(s: &str, from: &str, to: &str) -> (r: String)
    requires
        from@.len() > 0,
    ensures
        r@ == replaced(s@, from@, to@),
{
    let v = chars_of(s);
    let p = chars_of(from);
    let mut out = String::new();
    let mut start: usize = 0;
    let mut i: usize = 0;
    proof {
        assert(s@.skip(0) =~= s@);
        assert(out@ + s@.subrange(0, 0) + replaced(s@, from@, to@) =~= replaced(s@, from@, to@));
    }
    while v.len() - i >= p.len()
        invariant
            start <= i <= v.len(),
            v@ == s@,
            p@ == from@,
            p@.len() > 0,
            out@ + s@.subrange(start as int, i as int) + replaced(s@.skip(i as int), from@, to@)
                == replaced(s@, from@, to@),
        decreases v.len() - i,
    {
        let ghost rest = s@.skip(i as int);
        let here = occurs(&v, &p, i);
        assert(rest.subrange(0, from@.len() as int) =~= s@.subrange(i as int, i + from@.len()));
        if here {
            let ghost before = out@;
            out.append(slice_of(s, start, i).as_str());
            out.append(to);
            i += p.len();
            proof {
                assert(rest.skip(from@.len() as int) =~= s@.skip(i as int));
                let tail = replaced(s@.skip(i as int), from@, to@);
                assert(out@ + s@.subrange(i as int, i as int) + tail
                    =~= before + s@.subrange(start as int, i - from@.len()) + (to@ + tail));
            }
            start = i;
        } else {
            proof {
                assert(rest.skip(1) =~= s@.skip(i + 1));
                let tail = replaced(s@.skip(i + 1), from@, to@);
                assert(out@ + s@.subrange(start as int, i + 1) + tail
                    =~= out@ + s@.subrange(start as int, i as int) + (seq![rest[0]] + tail));
            }
            i += 1;
        }
    }
    proof {
        assert(out@ + s@.subrange(start as int, i as int) + s@.skip(i as int)
            =~= out@ + s@.subrange(start as int, s@.len() as int));
    }
    out.append(slice_of(s, start, v.len()).as_str());
    out
}

/// What `first_at` names is a position of `c` with none before it.
pub proof fn lemma_first_at(s: Seq<char>, c: char)
    ensures
        0 <= first_at(s, c) <= s.len(),
        forall|k: int| 0 <= k < first_at(s, c) ==> s[k] != c,
        first_at(s, c) < s.len() ==> s[first_at(s, c)] == c,
    decreases s.len(),
{
    if s.len() > 0 && s[0] != c {
        lemma_first_at(s.skip(1), c);
        assert forall|k: int| 0 <= k < first_at(s, c) implies s[k] != c by {
            if k > 0 {
                assert(s[k] == s.skip(1)[k - 1]);
            }
        }
    }
}

/// A position of `c` with none before it is the one that `first_at` names.
proof fn lemma_first_at_unique(s: Seq<char>, c: char, i: int)
    requires
        0 <= i <= s.len(),
        forall|k: int| 0 <= k < i ==> s[k] != c,
        i < s.len() ==> s[i] == c,
    ensures
        first_at(s, c) == i,
{
    lemma_first_at(s, c);
}

/// What `last_at` names is a position of `c` with none after it.
pub proof fn lemma_last_at(s: Seq<char>, c: char)
    ensures
        -1 <= last_at(s, c) < s.len(),
        forall|k: int| last_at(s, c) < k < s.len() ==> s[k] != c,
        last_at(s, c) >= 0 ==> s[last_at(s, c)] == c,
    decreases s.len(),
{
    if s.len() > 0 && s.last() != c {
        lemma_last_at(s.drop_last(), c);
        assert forall|k: int| last_at(s, c) < k < s.len() implies s[k] != c by {
            if k < s.len() - 1 {
                assert(s[k] == s.drop_last()[k]);
            }
        }
    }
}

/// The position of the first `c` in `v` from `from` on, or its length.
pub fn find(v: &Vec<char>, c: char, from: usize) -> (r: usize)
    requires
        from <= v.len(),
    ensures
        from <= r <= v.len(),
        r - from == first_at(v@.skip(from as int), c),
{
    let mut i: usize = from;
    while i < v.len() && v[i] != c
        invariant
            from <= i <= v.len(),
            forall|k: int| from <= k < i ==> v@[k] != c,
        decreases v.len() - i,
    {
        i += 1;
    }
    proof {
        lemma_first_at_unique(v@.skip(from as int), c, i - from);
    }
    i
}

/// The position of the last `c` in `s`, if there is one.
pub fn find_last(s: &str, c: char) -> (r: Option<usize>)
    ensures
        match r {
            Some(i) => i == last_at(s@, c),
            None => last_at(s@, c) == -1,
        },
{
    let v = chars_of(s);
    let mut i: usize = v.len();
    proof {
        lemma_last_at(s@, c);
    }
    while i > 0
        invariant
            i <= v.len(),
            v@ == s@,
            -1 <= last_at(s@, c) < i,
            last_at(s@, c) >= 0 ==> s@[last_at(s@, c)] == c,
            forall|k: int| last_at(s@, c) < k < s@.len() ==> s@[k] != c,
        decreases i,
    {
        if v[i - 1] == c {
            return Some(i - 1);
        }
        i -= 1;
    }
    None
}

/// The lines of `s`.
pub fn lines(s: &str) -> (r: Vec<String>)
    ensures
        r.deep_view() == lines_of(s@),
{
    let v = chars_of(s);
    let mut r: Vec<String> = Vec::new();
    let mut a: usize = 0;
    proof {
        assert(s@.skip(0) =~= s@);
        assert(r.deep_view() + lines_of(s@) =~= lines_of(s@));
    }
    while a < v.len()
        invariant
            a <= v.len(),
            v@ == s@,
            r.deep_view() + lines_of(s@.skip(a as int)) == lines_of(s@),
        decreases v.len() - a,
    {
        let ghost rest = s@.skip(a as int);
        let ghost before = r.deep_view();
        let n = find(&v, '\n', a);
        let mut b: usize = n;
        if n < v.len() && n > a && v[n - 1] == '\r' {
            b = n - 1;
        }
        let line = slice_of(s, a, b);
        r.push(line);
        assert(r.deep_view() =~= before.push(line@));
        proof {
            lemma_first_at(rest, '\n');
            if n < v.len() {
                assert(without_return(rest.take(n - a)) =~= s@.subrange(a as int, b as int));
                assert(rest.skip(n - a + 1) =~= s@.skip(n + 1));
                assert(before.push(line@) + lines_of(s@.skip(n + 1)) =~= before + (seq![line@]
                    + lines_of(s@.skip(n + 1))));
            } else {
                assert(s@.subrange(a as int, b as int) =~= rest);
                assert(before.push(line@) + lines_of(s@.skip(n as int)) =~= before + seq![rest]);
            }
        }
        if n < v.len() {
            a = n + 1;
        } else {
            a = n;
        }
    }
    assert(r.deep_view() + lines_of(s@.skip(a as int)) =~= r.deep_view());
    r
}

/// A longer row of digits does not stand for a smaller number.
proof fn lemma_digits_grow(s: Seq<char>, n: int)
    requires
        0 <= n <= s.len(),
        all_digits(s),
    ensures
        digits_value(s.take(n)) <= digits_value(s),
    decreases s.len() - n,
{
    if n < s.len() {
        lemma_digits_grow(s, n + 1);
        assert(s.take(n + 1).drop_last() =~= s.take(n));
    } else {
        assert(s.take(n) =~= s);
    }
}

/// The number that `s` writes in decimal, where it fits.
pub fn parse_u64(s: &str) -> (r: Option<u64>)
    ensures
        match r {
            Some(n) => number_of(s@) == Some(n as nat),
            None => number_of(s@) is None || number_of(s@)->0 > u64::MAX,
        },
{
    let v = chars_of(s);
    let from: usize = if v.len() > 0 && v[0] == '+' {
        1
    } else {
        0
    };
    let ghost d = s@.skip(from as int);
    assert(from == 0 ==> d =~= s@);
    if from == v.len() {
        return None;
    }
    let mut n: u64 = 0;
    let mut i: usize = from;
    while i < v.len()
        invariant
            from <= i <= v.len(),
            v@ == s@,
            d == s@.skip(from as int),
            d == without_plus(s@),
            d.len() > 0,
            n == digits_value(d.take(i - from)),
            forall|k: int| 0 <= k < i - from ==> digit(#[trigger] d[k]),
        decreases v.len() - i,
    {
        let c = v[i];
        assert(d[i - from] == c);
        if !('0' <= c && c <= '9') {
            assert(!digit(d[i - from]));
            return None;
        }
        let x: u64 = (c as u32 - '0' as u32) as u64;
        let ghost next = digits_value(d.take(i - from + 1));
        assert(d.take(i - from + 1).drop_last() =~= d.take(i - from));
        assert(next == n * 10 + x);
        if n > (u64::MAX - x) / 10 {
            proof {
                assert(next > u64::MAX);
                if all_digits(d) {
                    lemma_digits_grow(d, i - from + 1);
                }
            }
            return None;
        }
        n = n * 10 + x;
        i += 1;
    }
    assert(d.take(i - from) =~= d);
    Some(n)
}

/// The digit `n`.
fn digit_text(n: u64) -> (r: &'static str)
    requires
        n < 10,
    ensures
        r@ == seq![(n as nat + '0' as nat) as char],
{
    proof {
        reveal_strlit("0");
        reveal_strlit("1");
        reveal_strlit("2");
        reveal_strlit("3");
        reveal_strlit("4");
        reveal_strlit("5");
        reveal_strlit("6");
        reveal_strlit("7");
        reveal_strlit("8");
        reveal_strlit("9");
    }
    match n {
        0 => "0",
        1 => "1",
        2 => "2",
        3 => "3",
        4 => "4",
        5 => "5",
        6 => "6",
        7 => "7",
        8 => "8",
        _ => "9",
    }
}

/// `n` in decimal.
pub fn decimal_text(n: u64) -> (r: String)
    ensures
        r@ == decimal(n as nat),
    decreases n,
{
    if n < 10 {
        digit_text(n).to_string()
    } else {
        let mut r = decimal_text(n / 10);
        r.append(digit_text(n % 10));
        r
    }
}

/// `n` in decimal, with its sign where it is negative.
pub fn signed_decimal_text(n: i32) -> (r: String)
    ensures
        r@ == signed_decimal(n as int),
{
    if n < 0 {
        proof {
            reveal_strlit("-");
        }
        let mut r = "-".to_string();
        r.append(decimal_text((-(n as i64)) as u64).as_str());
        assert(r@ =~= signed_decimal(n as int));
        r
    } else {
        decimal_text(n as u64)
    }
}

/// Law: trimming takes white space off the two ends of a text, all of it and nothing
/// else. The result is where in the text what is left stands.
pub proof fn law_trimming_takes_white_space(s: Seq<char>) -> (r: (int, int))
    ensures
        0 <= r.0 <= r.1 <= s.len(),
        trimmed(s) == s.subrange(r.0, r.1),
        forall|i: int| 0 <= i < s.len() && !(r.0 <= i < r.1) ==> white(#[trigger] s[i]),
        r.0 < r.1 ==> !white(s[r.0]) && !white(s[r.1 - 1]),
    decreases s.len(),
{
    if s.len() == 0 {
        assert(s.subrange(0, 0) =~= s);
        (0int, 0int)
    } else if white(s[0]) {
        let rest = s.skip(1);
        let (a, b) = law_trimming_takes_white_space(rest);
        assert(rest.subrange(a, b) =~= s.subrange(a + 1, b + 1));
        assert forall|i: int| 0 <= i < s.len() && !(a + 1 <= i < b + 1) implies white(
            #[trigger] s[i],
        ) by {
            if i > 0 {
                assert(rest[i - 1] == s[i]);
            }
        }
        if a < b {
            assert(rest[a] == s[a + 1]);
            assert(rest[b - 1] == s[b]);
        }
        (a + 1, b + 1)
    } else if white(s.last()) {
        let rest = s.drop_last();
        let (a, b) = law_trimming_takes_white_space(rest);
        assert(rest.subrange(a, b) =~= s.subrange(a, b));
        assert forall|i: int| 0 <= i < s.len() && !(a <= i < b) implies white(
            #[trigger] s[i],
        ) by {
            if i < s.len() - 1 {
                assert(rest[i] == s[i]);
            }
        }
        if a < b {
            assert(rest[a] == s[a]);
            assert(rest[b - 1] == s[b - 1]);
        }
        (a, b)
    } else {
        assert(s.subrange(0, s.len() as int) =~= s);
        (0int, s.len() as int)
    }
}

/// Law: a text that was trimmed stays as it is when it is trimmed again.
pub proof fn law_trimming_twice(s: Seq<char>)
    ensures
        trimmed(trimmed(s)) == trimmed(s),
    decreases s.len(),
{
    if s.len() > 0 {
        if white(s[0]) {
            law_trimming_twice(s.skip(1));
        } else if white(s.last()) {
            law_trimming_twice(s.drop_last());
        }
    }
}

/// Law: no line holds a line feed.
pub proof fn law_lines_hold_no_line_feed(s: Seq<char>, i: int)
    requires
        0 <= i < lines_of(s).len(),
    ensures
        !lines_of(s)[i].contains('\n'),
    decreases s.len(),
{
    lemma_first_at(s, '\n');
    let n = first_at(s, '\n');
    if n < s.len() {
        let rest = lines_of(s.skip(n + 1));
        assert(lines_of(s) =~= seq![without_return(s.take(n))] + rest);
        if i > 0 {
            assert(lines_of(s)[i] == rest[i - 1]);
            law_lines_hold_no_line_feed(s.skip(n + 1), i - 1);
        } else {
            assert(!s.take(n).contains('\n'));
        }
    }
}

/// Law: a number that is written in decimal is read as what it was.
pub proof fn law_numbers_are_read_as_written(n: nat)
    ensures
        number_of(decimal(n)) == Some(n),
{
    lemma_decimal(n);
}

/// What is written of a number is digits, which stand for it.
pub proof fn lemma_decimal(n: nat)
    ensures
        decimal(n).len() > 0,
        all_digits(decimal(n)),
        digits_value(decimal(n)) == n,
        without_plus(decimal(n)) == decimal(n),
    decreases n,
{
    let d = decimal(n);
    if n < 10 {
        assert(d.drop_last() =~= seq![]);
        reveal_with_fuel(digits_value, 2);
    } else {
        lemma_decimal(n / 10);
        assert(d.drop_last() =~= decimal(n / 10));
        assert forall|i: int| 0 <= i < d.len() implies digit(#[trigger] d[i]) by {
            if i < d.len() - 1 {
                assert(d[i] == decimal(n / 10)[i]);
            }
        }
    }
    assert(digit(d[0]));
}

/// Law: in what is small already, capital letters and small ones are the same.
pub proof fn law_small_letters_forget_the_case(s: Seq<char>)
    ensures
        ascii_lower(ascii_upper(s)) == ascii_lower(s),
        ascii(s) ==> ascii(ascii_upper(s)),
{
    assert(ascii_lower(ascii_upper(s)) =~= ascii_lower(s));
}

/// Law: a text is found where it stands, whatever is around it.
pub proof fn law_found_where_it_stands(before: Seq<char>, pat: Seq<char>, after: Seq<char>)
    ensures
        holds(before + pat + after, pat),
        occurs_at(before + pat + after, pat, before.len() as int),
        occurs_at(pat + after, pat, 0),
{
    let s = before + pat + after;
    assert(s.subrange(before.len() as int, (before.len() + pat.len()) as int) =~= pat);
    assert((pat + after).subrange(0, pat.len() as int) =~= pat);
    assert(occurs_at(s, pat, before.len() as int));
}

/// Law: a text that is found stands there. The result is what stands before and behind
/// it.
pub proof fn law_what_is_found_stands_there(s: Seq<char>, pat: Seq<char>) -> (r: (
    Seq<char>,
    Seq<char>,
))
    requires
        holds(s, pat),
    ensures
        s == r.0 + pat + r.1,
{
    let i = choose|i: int| occurs_at(s, pat, i);
    let r = (s.take(i), s.skip(i + pat.len()));
    assert(s.subrange(i, i + pat.len()) == pat);
    assert(s =~= r.0 + pat + r.1);
    r
}

/// Law: the first place where a text stands is exchanged, and what comes behind it is
/// looked at anew.
pub proof fn law_replacing_goes_from_the_left(
    before: Seq<char>,
    from: Seq<char>,
    after: Seq<char>,
    to: Seq<char>,
)
    requires
        from.len() > 0,
        forall|i: int| 0 <= i < before.len() ==> !occurs_at(before + from + after, from, i),
    ensures
        replaced(before + from + after, from, to) == before + to + replaced(after, from, to),
    decreases before.len(),
{
    let s = before + from + after;
    if before.len() == 0 {
        assert(s.subrange(0, from.len() as int) =~= from);
        assert(s.skip(from.len() as int) =~= after);
        assert(to + replaced(after, from, to) =~= before + to + replaced(after, from, to));
    } else {
        let rest = before.skip(1);
        assert(!occurs_at(s, from, 0));
        assert(s.skip(1) =~= rest + from + after);
        assert forall|i: int| 0 <= i < rest.len() implies !occurs_at(
            rest + from + after,
            from,
            i,
        ) by {
            assert(!occurs_at(s, from, i + 1));
            assert((rest + from + after).subrange(i, i + from.len()) =~= s.subrange(
                i + 1,
                i + 1 + from.len(),
            ));
        }
        law_replacing_goes_from_the_left(rest, from, after, to);
        assert(seq![s[0]] + (rest + to + replaced(after, from, to)) =~= before + to + replaced(
            after,
            from,
            to,
        ));
    }
}

/// Law: where there is nothing to exchange, nothing is.
pub proof fn law_nothing_to_replace(s: Seq<char>, from: Seq<char>, to: Seq<char>)
    requires
        !holds(s, from),
    ensures
        replaced(s, from, to) == s,
    decreases s.len(),
{
    if from.len() > 0 && s.len() >= from.len() {
        let rest = s.skip(1);
        assert(!occurs_at(s, from, 0));
        assert(!holds(rest, from)) by {
            if holds(rest, from) {
                let i = choose|i: int| occurs_at(rest, from, i);
                assert(s.subrange(i + 1, i + 1 + from.len()) =~= rest.subrange(
                    i,
                    i + from.len(),
                ));
                assert(occurs_at(s, from, i + 1));
            }
        }
        law_nothing_to_replace(rest, from, to);
        assert(seq![s[0]] + rest =~= s);
    }
}

/// Law: a line ends before its line feed, and loses one carriage return there; the
/// other lines come behind it.
pub proof fn law_lines_one_by_one(line: Seq<char>, rest: Seq<char>)
    requires
        !line.contains('\n'),
    ensures
        line.len() == 0 || line.last() != '\r' ==> lines_of(line + seq!['\n'] + rest) == seq![line]
            + lines_of(rest),
        lines_of(line + seq!['\r', '\n'] + rest) == seq![line] + lines_of(rest),
{
    let s = line + seq!['\n'] + rest;
    lemma_first_at_unique(s, '\n', line.len() as int);
    assert(s.take(line.len() as int) =~= line);
    assert(s.skip((line.len() + 1) as int) =~= rest);
    let ended = line.push('\r');
    let s = line + seq!['\r', '\n'] + rest;
    assert forall|k: int| 0 <= k < ended.len() implies s[k] != '\n' by {
        if k < line.len() {
            assert(line.contains(line[k]));
            assert(s[k] == line[k]);
        }
    }
    lemma_first_at_unique(s, '\n', ended.len() as int);
    assert(s.take(ended.len() as int) =~= ended);
    assert(ended.drop_last() =~= line);
    assert(s.skip((ended.len() + 1) as int) =~= rest);
}

/// Law: a text without a line feed is one line, as it is; an empty one is none.
pub proof fn law_the_last_line(line: Seq<char>)
    requires
        !line.contains('\n'),
    ensures
        line.len() > 0 ==> lines_of(line) == seq![line],
        line.len() == 0 ==> lines_of(line).len() == 0,
{
    lemma_first_at(line, '\n');
    if first_at(line, '\n') < line.len() {
        assert(line.contains(line[first_at(line, '\n')]));
    }
}

/// Law: each further digit of a number is a place behind those before it.
pub proof fn law_digits_by_place(n: nat, d: nat)
    requires
        d < 10,
    ensures
        decimal(d) == seq![('0' as nat + d) as char],
        n > 0 ==> decimal(10 * n + d) == decimal(n).push(('0' as nat + d) as char),
{
    if n > 0 {
        let m = 10 * n + d;
        assert(m / 10 == n && m % 10 == d) by (nonlinear_arith)
            requires
                m == 10 * n + d,
                d < 10,
        ;
        assert(decimal(m) =~= decimal(n).push(('0' as nat + d) as char));
    }
}

/// Law: a negative number has a minus sign before it, and no other has one.
pub proof fn law_the_sign_of_a_number(n: nat)
    ensures
        signed_decimal(n as int) == decimal(n),
        n > 0 ==> signed_decimal(-(n as int)) == seq!['-'] + decimal(n),
{
}

/// Law: a plus sign before a number changes nothing, and a text that is empty or holds
/// anything but digits behind it is no number.
pub proof fn law_what_is_a_number(n: nat, s: Seq<char>, i: int)
    ensures
        number_of(seq!['+'] + decimal(n)) == Some(n),
        s.len() == 0 ==> number_of(s) is None,
        0 <= i < s.len() && !('0' <= s[i] <= '9') && !(i == 0 && s[0] == '+') ==> number_of(s) is None,
{
    lemma_decimal(n);
    assert((seq!['+'] + decimal(n)).skip(1) =~= decimal(n));
    if 0 <= i < s.len() && !('0' <= s[i] <= '9') && !(i == 0 && s[0] == '+') {
        let d = without_plus(s);
        if s[0] == '+' {
            assert(d[i - 1] == s[i]);
        } else {
            assert(d[i] == s[i]);
        }
    }
}

/// Law: a digit behind a number makes it ten times as large, and adds what it stands for.
pub proof fn law_numbers_by_place(s: Seq<char>, c: char)
    requires
        '0' <= c <= '9',
    ensures
        number_of(seq![c]) == Some((c as nat - '0' as nat) as nat),
        number_of(s) is Some ==> number_of(s.push(c)) == Some(
            (10 * number_of(s)->0 + (c as nat - '0' as nat)) as nat,
        ),
{
    let one = seq![c];
    assert(one.drop_last() =~= seq![]);
    reveal_with_fuel(digits_value, 2);
    if number_of(s) is Some {
        let d = without_plus(s);
        let e = without_plus(s.push(c));
        assert(e =~= d.push(c));
        assert(e.drop_last() =~= d);
        assert forall|i: int| 0 <= i < e.len() implies digit(#[trigger] e[i]) by {
            if i < d.len() {
                assert(e[i] == d[i]);
            }
        }
    }
}

} // verus!
