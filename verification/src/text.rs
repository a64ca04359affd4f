//! Text primitives over character sequences, with their mathematical meaning.

use vstd::prelude::*;
use vstd::string::*;

verus! {

/// `String::push` appends one character to the end of the string.
pub assume_specification[ String::push ](s: &mut String, c: char)
    ensures
        final(s)@ == old(s)@.push(c),
;

/// The characters of `s`, in order.
pub fn to_chars(s: &str) -> (v: Vec<char>)
    ensures
        v@ == s@,
{
    let mut v: Vec<char> = Vec::new();
    for c in it: s.chars()
        invariant
            it.seq() == s@,
            v@ == s@.subrange(0, it.index() as int),
    {
        v.push(c);
        assert(s@.subrange(0, it.index() + 1) == s@.subrange(0, it.index() as int).push(c));
    }
    assert(s@.subrange(0, s@.len() as int) == s@);
    v
}

/// The string made of the characters of `v`, in order.
pub fn from_chars(v: &Vec<char>) -> (s: String)
    ensures
        s@ == v@,
{
    let mut s = String::new();
    let mut i: usize = 0;
    while i < v.len()
        invariant
            i <= v.len(),
            s@ == v@.subrange(0, i as int),
        decreases v.len() - i,
    {
        s.push(v[i]);
        i += 1;
        assert(v@.subrange(0, i as int) == v@.subrange(0, i - 1).push(v@[i - 1]));
    }
    assert(v@.subrange(0, i as int) == v@);
    s
}

/// `prefix`, then `middle`, then `suffix`.
pub fn wrap(prefix: &str, middle: &str, suffix: &str) -> (r: String)
    ensures
        r@ == prefix@ + middle@ + suffix@,
{
    let mut r = String::from_str(prefix);
    r.append(middle);
    r.append(suffix);
    r
}

/// `prefix`, then `rest`.
pub fn pair(prefix: &str, rest: &str) -> (r: String)
    ensures
        r@ == prefix@ + rest@,
{
    let mut r = String::from_str(prefix);
    r.append(rest);
    r
}

/// The text of `s`, where there is one.
pub open spec fn opt_text(s: Option<&str>) -> Option<Seq<char>> {
    match s {
        Some(t) => Some(t@),
        None => None,
    }
}

/// `needle` occurs in `hay` starting at position `i`.
pub open spec fn match_at(hay: Seq<char>, needle: Seq<char>, i: int) -> bool {
    &&& 0 <= i
    &&& i + needle.len() <= hay.len()
    &&& hay.subrange(i, i + needle.len()) == needle
}

/// `needle` occurs somewhere in `hay`.
pub open spec fn contains_str(hay: Seq<char>, needle: Seq<char>) -> bool {
    exists|i: int| match_at(hay, needle, i)
}

/// `hay` begins with `needle`.
pub open spec fn starts_with(hay: Seq<char>, needle: Seq<char>) -> bool {
    match_at(hay, needle, 0)
}

/// `hay` ends with `needle`.
pub open spec fn ends_with(hay: Seq<char>, needle: Seq<char>) -> bool {
    match_at(hay, needle, hay.len() - needle.len())
}

/// `i` is the leftmost position at or after `from` where `needle` occurs in `hay`.
pub open spec fn first_match_from(hay: Seq<char>, needle: Seq<char>, from: int, i: int) -> bool {
    &&& from <= i
    &&& match_at(hay, needle, i)
    &&& forall|j: int| from <= j < i ==> !match_at(hay, needle, j)
}

/// `i` is the leftmost position where `needle` occurs in `hay`.
pub open spec fn first_match(hay: Seq<char>, needle: Seq<char>, i: int) -> bool {
    first_match_from(hay, needle, 0, i)
}

/// `i` is the rightmost position where `needle` occurs in `hay`.
pub open spec fn last_match(hay: Seq<char>, needle: Seq<char>, i: int) -> bool {
    &&& match_at(hay, needle, i)
    &&& forall|j: int| i < j ==> !match_at(hay, needle, j)
}

/// Whether `needle` occurs in `hay` at position `i`.
pub fn is_match_at(hay: &Vec<char>, needle: &Vec<char>, i: usize) -> (r: bool)
    ensures
        r == match_at(hay@, needle@, i as int),
{
    if needle.len() > hay.len() || i > hay.len() - needle.len() {
        return false;
    }
    let mut k: usize = 0;
    while k < needle.len()
        invariant
            k <= needle.len(),
            i + needle.len() <= hay.len(),
            forall|j: int| 0 <= j < k ==> hay@[i + j] == needle@[j],
        decreases needle.len() - k,
    {
        if hay[i + k] != needle[k] {
            assert(hay@.subrange(i as int, i + needle.len())[k as int] != needle@[k as int]);
            return false;
        }
        k += 1;
    }
    assert(hay@.subrange(i as int, i + needle.len()) =~= needle@);
    true
}

/// The leftmost position at or after `from` where `needle` occurs in `hay`.
pub fn find_from(hay: &Vec<char>, needle: &Vec<char>, from: usize) -> (r: Option<usize>)
    ensures
        match r {
            Some(i) => first_match_from(hay@, needle@, from as int, i as int),
            None => forall|j: int| from <= j ==> !match_at(hay@, needle@, j),
        },
{
    if needle.len() > hay.len() || from > hay.len() - needle.len() {
        return None;
    }
    let last: usize = hay.len() - needle.len();
    let mut i: usize = from;
    loop
        invariant
            from <= i <= last,
            last == hay.len() - needle.len(),
            forall|j: int| from <= j < i ==> !match_at(hay@, needle@, j),
        decreases last - i,
    {
        if is_match_at(hay, needle, i) {
            return Some(i);
        }
        if i == last {
            return None;
        }
        i += 1;
    }
}

/// The leftmost position where `needle` occurs in `hay`.
pub fn find(hay: &Vec<char>, needle: &Vec<char>) -> (r: Option<usize>)
    ensures
        match r {
            Some(i) => first_match(hay@, needle@, i as int),
            None => !contains_str(hay@, needle@),
        },
{
    find_from(hay, needle, 0)
}

/// The rightmost position where `needle` occurs in `hay`.
pub fn rfind(hay: &Vec<char>, needle: &Vec<char>) -> (r: Option<usize>)
    ensures
        match r {
            Some(i) => last_match(hay@, needle@, i as int),
            None => !contains_str(hay@, needle@),
        },
{
    if needle.len() > hay.len() {
        return None;
    }
    let mut i: usize = hay.len() - needle.len();
    loop
        invariant
            i <= hay.len() - needle.len(),
            needle.len() <= hay.len(),
            forall|j: int| i < j ==> !match_at(hay@, needle@, j),
        decreases i,
    {
        if is_match_at(hay, needle, i) {
            return Some(i);
        }
        if i == 0 {
            return None;
        }
        i -= 1;
    }
}

/// Whether `needle` occurs somewhere in `hay`.
pub fn contains(hay: &Vec<char>, needle: &Vec<char>) -> (r: bool)
    ensures
        r == contains_str(hay@, needle@),
{
    find(hay, needle).is_some()
}

/// Whether `hay` begins with `needle`.
pub fn has_prefix(hay: &Vec<char>, needle: &Vec<char>) -> (r: bool)
    ensures
        r == starts_with(hay@, needle@),
{
    is_match_at(hay, needle, 0)
}

/// Whether `hay` ends with `needle`.
pub fn has_suffix(hay: &Vec<char>, needle: &Vec<char>) -> (r: bool)
    ensures
        r == ends_with(hay@, needle@),
{
    if needle.len() > hay.len() {
        return false;
    }
    is_match_at(hay, needle, hay.len() - needle.len())
}

/// Whether `a` and `b` hold the same characters.
pub fn same_chars(a: &Vec<char>, b: &Vec<char>) -> (r: bool)
    ensures
        r == (a@ == b@),
{
    if a.len() != b.len() {
        return false;
    }
    let r = is_match_at(a, b, 0);
    assert(a@.subrange(0, a@.len() as int) == a@);
    r
}

/// Whether `a` and `b` are the same text.
pub fn same_text(a: &str, b: &str) -> (r: bool)
    ensures
        r == (a@ == b@),
{
    same_chars(&to_chars(a), &to_chars(b))
}

/// The characters of `v` from position `from` up to, not including, `to`.
pub fn slice(v: &Vec<char>, from: usize, to: usize) -> (r: Vec<char>)
    requires
        from <= to <= v.len(),
    ensures
        r@ == v@.subrange(from as int, to as int),
{
    let mut r: Vec<char> = Vec::new();
    let mut i: usize = from;
    while i < to
        invariant
            from <= i <= to <= v.len(),
            r@ == v@.subrange(from as int, i as int),
        decreases to - i,
    {
        r.push(v[i]);
        i += 1;
        assert(v@.subrange(from as int, i as int) == v@.subrange(from as int, i - 1).push(v@[i - 1]));
    }
    r
}

/// What a list holds after one more text is added: what it held, and that text.
pub proof fn lemma_push_contains(s: Seq<Seq<char>>, a: Seq<char>, x: Seq<char>)
    ensures
        s.push(a).contains(x) <==> s.contains(x) || x == a,
{
    if s.push(a).contains(x) {
        let k = choose|k: int| 0 <= k < s.push(a).len() && s.push(a)[k] == x;
        if k < s.len() {
            assert(s[k] == x);
        }
    }
    if s.contains(x) {
        let k = choose|k: int| 0 <= k < s.len() && s[k] == x;
        assert(s.push(a)[k] == x);
    }
    if x == a {
        assert(s.push(a)[s.len() as int] == x);
    }
}

/// The pieces of `s` between occurrences of `sep`; an empty text has one empty piece.
pub open spec fn split_on(s: Seq<char>, sep: char) -> Seq<Seq<char>>
    decreases s.len(),
{
    if s.len() == 0 {
        seq![Seq::<char>::empty()]
    } else {
        let init = split_on(s.drop_last(), sep);
        if s.last() == sep {
            init.push(Seq::<char>::empty())
        } else {
            init.drop_last().push(init.last().push(s.last()))
        }
    }
}

/// Splitting always yields at least one piece.
pub proof fn lemma_split_nonempty(s: Seq<char>, sep: char)
    ensures
        split_on(s, sep).len() >= 1,
    decreases s.len(),
{
    if s.len() > 0 {
        lemma_split_nonempty(s.drop_last(), sep);
    }
}

/// The character sequences held by the vectors of `v`.
pub open spec fn views_of(v: Seq<Vec<char>>) -> Seq<Seq<char>> {
    Seq::new(v.len(), |i: int| v[i]@)
}

/// The pieces of `s` between occurrences of `sep`.
pub fn split(s: &Vec<char>, sep: char) -> (r: Vec<Vec<char>>)
    ensures
        views_of(r@) == split_on(s@, sep),
        r.len() >= 1,
{
    let mut r: Vec<Vec<char>> = Vec::new();
    let mut cur: Vec<char> = Vec::new();
    let mut i: usize = 0;
    while i < s.len()
        invariant
            i <= s.len(),
            views_of(r@).push(cur@) == split_on(s@.subrange(0, i as int), sep),
        decreases s.len() - i,
    {
        let ghost before = s@.subrange(0, i as int);
        let ghost after = s@.subrange(0, i + 1);
        assert(after.drop_last() == before);
        proof {
            lemma_split_nonempty(before, sep);
        }
        if s[i] == sep {
            let ghost r0 = views_of(r@);
            r.push(cur);
            cur = Vec::new();
            assert(views_of(r@) =~= r0.push(r@.last()@));
            assert(views_of(r@).push(cur@) =~= split_on(after, sep));
        } else {
            cur.push(s[i]);
            assert(views_of(r@).push(cur@) =~= split_on(after, sep));
        }
        i += 1;
    }
    assert(s@.subrange(0, i as int) == s@);
    let ghost r0 = views_of(r@);
    r.push(cur);
    assert(views_of(r@) =~= r0.push(r@.last()@));
    r
}

/// The texts of `parts` joined with `sep` between neighbours.
pub open spec fn join_with(parts: Seq<Seq<char>>, sep: Seq<char>) -> Seq<char>
    decreases parts.len(),
{
    if parts.len() == 0 {
        Seq::<char>::empty()
    } else if parts.len() == 1 {
        parts[0]
    } else {
        join_with(parts.drop_last(), sep) + sep + parts.last()
    }
}

/// The strings of `parts` joined with `sep` between neighbours.
pub fn join(parts: &Vec<String>, sep: &str) -> (r: String)
    ensures
        r@ == join_with(parts.deep_view(), sep@),
{
    let mut r = String::new();
    let mut i: usize = 0;
    while i < parts.len()
        invariant
            i <= parts.len(),
            r@ == join_with(parts.deep_view().subrange(0, i as int), sep@),
        decreases parts.len() - i,
    {
        let ghost before = parts.deep_view().subrange(0, i as int);
        let ghost after = parts.deep_view().subrange(0, i + 1);
        assert(after.drop_last() == before);
        assert(after.last() == parts@[i as int]@);
        if i > 0 {
            r.append(sep);
        } else {
            assert(r@ + parts@[i as int]@ == parts@[i as int]@);
        }
        r.append(parts[i].as_str());
        i += 1;
    }
    assert(parts.deep_view().subrange(0, i as int) == parts.deep_view());
    r
}

/// `s` with every occurrence of `from` replaced by `to`.
pub open spec fn replace_char_spec(s: Seq<char>, from: char, to: char) -> Seq<char> {
    Seq::new(s.len(), |i: int| if s[i] == from { to } else { s[i] })
}

/// `s` with every occurrence of `from` replaced by `to`.
pub fn replace_char(s: &Vec<char>, from: char, to: char) -> (r: Vec<char>)
    ensures
        r@ == replace_char_spec(s@, from, to),
{
    let mut r: Vec<char> = Vec::new();
    let mut i: usize = 0;
    while i < s.len()
        invariant
            i <= s.len(),
            r.len() == i,
            forall|j: int| 0 <= j < i ==> r@[j] == (if s@[j] == from { to } else { s@[j] }),
        decreases s.len() - i,
    {
        if s[i] == from {
            r.push(to);
        } else {
            r.push(s[i]);
        }
        i += 1;
    }
    assert(r@ =~= replace_char_spec(s@, from, to));
    r
}

/// The characters that `trim` removes: those with the Unicode property White_Space.
pub open spec fn is_space(c: char) -> bool {
    let n = c as u32;
    ||| 0x09 <= n <= 0x0d
    ||| n == 0x20
    ||| n == 0x85
    ||| n == 0xa0
    ||| n == 0x1680
    ||| 0x2000 <= n <= 0x200a
    ||| n == 0x2028
    ||| n == 0x2029
    ||| n == 0x202f
    ||| n == 0x205f
    ||| n == 0x3000
}

/// Whether `c` has the Unicode property White_Space.
pub fn is_whitespace(c: char) -> (r: bool)
    ensures
        r == is_space(c),
{
    let n: u32 = c as u32;
    (0x09 <= n && n <= 0x0d) || n == 0x20 || n == 0x85 || n == 0xa0 || n == 0x1680 || (0x2000 <= n
        && n <= 0x200a) || n == 0x2028 || n == 0x2029 || n == 0x202f || n == 0x205f || n == 0x3000
}

/// `s` without its leading white space.
pub open spec fn trim_start(s: Seq<char>) -> Seq<char>
    decreases s.len(),
{
    if s.len() > 0 && is_space(s[0]) {
        trim_start(s.drop_first())
    } else {
        s
    }
}

/// `s` without its trailing white space.
pub open spec fn trim_end(s: Seq<char>) -> Seq<char>
    decreases s.len(),
{
    if s.len() > 0 && is_space(s.last()) {
        trim_end(s.drop_last())
    } else {
        s
    }
}

/// `s` without leading and trailing white space.
pub open spec fn trimmed(s: Seq<char>) -> Seq<char> {
    trim_end(trim_start(s))
}

/// `s` without leading and trailing white space.
pub fn trim(s: &Vec<char>) -> (r: Vec<char>)
    ensures
        r@ == trimmed(s@),
{
    let n = s.len();
    let mut a: usize = 0;
    assert(s@.subrange(0, n as int) == s@);
    while a < n && is_whitespace(s[a])
        invariant
            a <= n == s.len(),
            trim_start(s@) == trim_start(s@.subrange(a as int, n as int)),
        decreases n - a,
    {
        assert(s@.subrange(a as int, n as int).drop_first() == s@.subrange(a + 1, n as int));
        a += 1;
    }
    assert(s@.subrange(0, n as int) == s@);
    let ghost t = s@.subrange(a as int, n as int);
    assert(trim_start(s@) == t);
    let mut b: usize = n;
    while b > a && is_whitespace(s[b - 1])
        invariant
            a <= b <= n == s.len(),
            t == s@.subrange(a as int, n as int),
            trim_end(t) == trim_end(s@.subrange(a as int, b as int)),
        decreases b,
    {
        assert(s@.subrange(a as int, b as int).drop_last() == s@.subrange(a as int, b - 1));
        b -= 1;
    }
    slice(s, a, b)
}

/// The value of the decimal digit `c`, and 0 for any other character.
pub open spec fn digit_value(c: char) -> nat {
    if '0' <= c <= '9' {
        (c as u32 - '0' as u32) as nat
    } else {
        0
    }
}

/// `c` is one of the ten ASCII decimal digits.
pub open spec fn is_digit(c: char) -> bool {
    '0' <= c <= '9'
}

/// Every character of `s` is an ASCII decimal digit.
pub open spec fn all_digits(s: Seq<char>) -> bool {
    forall|i: int| 0 <= i < s.len() ==> is_digit(#[trigger] s[i])
}

/// The number that the digits of `s` denote in base ten.
pub open spec fn digits_value(s: Seq<char>) -> nat
    decreases s.len(),
{
    if s.len() == 0 {
        0
    } else {
        digits_value(s.drop_last()) * 10 + digit_value(s.last())
    }
}

/// `s` without one leading `+`, if it has one.
pub open spec fn without_plus(s: Seq<char>) -> Seq<char> {
    if s.len() > 0 && s[0] == '+' {
        s.drop_first()
    } else {
        s
    }
}

/// What parsing `s` as an unsigned number no greater than `max` gives: an
/// optional `+`, then one or more digits, whose value must not exceed `max`.
pub open spec fn parse_unsigned(s: Seq<char>, max: nat) -> Option<nat> {
    let d = without_plus(s);
    if d.len() > 0 && all_digits(d) && digits_value(d) <= max {
        Some(digits_value(d))
    } else {
        None
    }
}

/// A prefix of a digit string denotes no more than the whole.
pub proof fn lemma_digits_value_prefix(s: Seq<char>, k: int)
    requires
        0 <= k <= s.len(),
    ensures
        digits_value(s.subrange(0, k)) <= digits_value(s),
    decreases s.len() - k,
{
    if k == s.len() {
        assert(s.subrange(0, k) == s);
    } else {
        lemma_digits_value_prefix(s, k + 1);
        assert(s.subrange(0, k + 1).drop_last() == s.subrange(0, k));
        assert(digits_value(s.subrange(0, k + 1)) >= digits_value(s.subrange(0, k)) * 10)
            by (nonlinear_arith)
            requires
                digits_value(s.subrange(0, k + 1)) == digits_value(s.subrange(0, k)) * 10
                    + digit_value(s.subrange(0, k + 1).last()),
        ;
    }
}

/// Parses `s` as an unsigned number no greater than `max`.
pub fn parse_number(s: &Vec<char>, max: u64) -> (r: Option<u64>)
    ensures
        match r {
            Some(v) => parse_unsigned(s@, max as nat) == Some(v as nat),
            None => parse_unsigned(s@, max as nat) is None,
        },
{
    let n = s.len();
    let start: usize = if n > 0 && s[0] == '+' {
        1
    } else {
        0
    };
    let ghost d = s@.subrange(start as int, n as int);
    assert(d == without_plus(s@));
    if start == n {
        return None;
    }
    let mut acc: u64 = 0;
    let mut i: usize = start;
    while i < n
        invariant
            start <= i <= n == s.len(),
            d == s@.subrange(start as int, n as int),
            d == without_plus(s@),
            all_digits(d.subrange(0, i - start)),
            acc as nat == digits_value(d.subrange(0, i - start)),
            acc <= max,
        decreases n - i,
    {
        let c = s[i];
        let ghost pre = d.subrange(0, i - start);
        let ghost cur = d.subrange(0, i - start + 1);
        assert(cur.drop_last() == pre);
        assert(cur.last() == c);
        if !('0' <= c && c <= '9') {
            assert(d[i - start] == c);
            assert(!is_digit(d[i - start]));
            return None;
        }
        let v: u64 = (c as u32 - '0' as u32) as u64;
        if v > max || acc > (max - v) / 10 {
            proof {
                assert(digits_value(cur) == acc * 10 + v);
                assert(acc * 10 + v > max) by (nonlinear_arith)
                    requires
                        acc > (max - v) / 10 || v > max,
                        acc >= 0,
                ;
                lemma_digits_value_prefix(d, i - start + 1);
            }
            return None;
        }
        assert(acc * 10 + v <= max) by (nonlinear_arith)
            requires
                acc <= (max - v) / 10,
                v <= max,
        ;
        acc = acc * 10 + v;
        assert forall|j: int| 0 <= j < cur.len() implies is_digit(#[trigger] cur[j]) by {
            if j < pre.len() {
                assert(cur[j] == pre[j]);
            }
        }
        i += 1;
    }
    assert(d.subrange(0, n - start) == d);
    Some(acc)
}

/// The sixteen lower-case hexadecimal digits, in order of value.
pub open spec fn digit_table() -> Seq<char> {
    seq!['0', '1', '2', '3', '4', '5', '6', '7', '8', '9', 'a', 'b', 'c', 'd', 'e', 'f']
}

/// The digit that stands for `d`, for `d` below sixteen.
pub open spec fn digit_char(d: int) -> char {
    digit_table()[d]
}

/// `c` is a lower-case hexadecimal digit.
pub open spec fn is_hex_digit(c: char) -> bool {
    ('0' <= c <= '9') || ('a' <= c <= 'f')
}

/// The digit that stands for `d`.
pub fn digit(d: u8) -> (c: char)
    requires
        d < 16,
    ensures
        c == digit_char(d as int),
        is_hex_digit(c),
        d < 10 ==> is_digit(c) && digit_value(c) == d,
{
    match d {
        0 => '0',
        1 => '1',
        2 => '2',
        3 => '3',
        4 => '4',
        5 => '5',
        6 => '6',
        7 => '7',
        8 => '8',
        9 => '9',
        10 => 'a',
        11 => 'b',
        12 => 'c',
        13 => 'd',
        14 => 'e',
        _ => 'f',
    }
}

/// What the digit for `d` is: a hexadecimal digit, and below ten a decimal
/// digit of the value `d`.
pub proof fn lemma_digit_char(d: int)
    requires
        0 <= d < 16,
    ensures
        is_hex_digit(digit_char(d)),
        !is_space(digit_char(d)),
        digit_char(d) != '+',
        d < 10 ==> is_digit(digit_char(d)) && digit_value(digit_char(d)) == d,
{
    assert(digit_table().len() == 16);
    if d == 0 {
    } else if d == 1 {
    } else if d == 2 {
    } else if d == 3 {
    } else if d == 4 {
    } else if d == 5 {
    } else if d == 6 {
    } else if d == 7 {
    } else if d == 8 {
    } else if d == 9 {
    } else if d == 10 {
    } else if d == 11 {
    } else if d == 12 {
    } else if d == 13 {
    } else if d == 14 {
    } else {
    }
}

/// `n` written in base ten without leading zeros.
pub open spec fn decimal(n: nat) -> Seq<char>
    decreases n,
{
    if n < 10 {
        seq![digit_char(n as int)]
    } else {
        decimal(n / 10).push(digit_char((n % 10) as int))
    }
}

/// A number written in base ten is one or more digits that denote it.
pub proof fn lemma_decimal(n: nat)
    ensures
        decimal(n).len() >= 1,
        all_digits(decimal(n)),
        digits_value(decimal(n)) == n,
    decreases n,
{
    lemma_digit_char((n % 10) as int);
    let s = decimal(n);
    assert(s.last() == digit_char((n % 10) as int));
    if n < 10 {
        assert(s.drop_last() =~= Seq::<char>::empty());
        assert(digits_value(s.drop_last()) == 0);
        assert(digits_value(s) == digits_value(s.drop_last()) * 10 + digit_value(s.last()));
    } else {
        lemma_decimal(n / 10);
        assert(s.drop_last() =~= decimal(n / 10));
        assert(digits_value(s) == digits_value(s.drop_last()) * 10 + digit_value(s.last()));
        assert forall|i: int| 0 <= i < s.len() implies is_digit(#[trigger] s[i]) by {
            if i < s.len() - 1 {
                assert(s[i] == decimal(n / 10)[i]);
            }
        }
    }
}

/// A number written in base ten reads back as itself, within any bound that it meets.
pub proof fn lemma_parse_decimal(n: nat, max: nat)
    requires
        n <= max,
    ensures
        parse_unsigned(decimal(n), max) == Some(n),
{
    lemma_decimal(n);
    assert(is_digit(decimal(n)[0]));
}

/// Digits in front of a digit string that are zeros do not change what it denotes.
pub proof fn lemma_leading_zeros(zeros: Seq<char>, s: Seq<char>)
    requires
        forall|i: int| 0 <= i < zeros.len() ==> zeros[i] == '0',
    ensures
        digits_value(zeros + s) == digits_value(s),
    decreases s.len(),
{
    if s.len() == 0 {
        assert(zeros + s == zeros);
        lemma_zeros_value(zeros);
    } else {
        lemma_leading_zeros(zeros, s.drop_last());
        assert((zeros + s).drop_last() == zeros + s.drop_last());
        assert((zeros + s).last() == s.last());
    }
}

/// A string of zeros denotes zero.
pub proof fn lemma_zeros_value(zeros: Seq<char>)
    requires
        forall|i: int| 0 <= i < zeros.len() ==> zeros[i] == '0',
    ensures
        digits_value(zeros) == 0,
    decreases zeros.len(),
{
    if zeros.len() > 0 {
        lemma_zeros_value(zeros.drop_last());
    }
}

/// A text that neither begins nor ends with white space is left as it is.
pub proof fn lemma_trim_nothing(s: Seq<char>)
    requires
        s.len() > 0,
        !is_space(s[0]),
        !is_space(s.last()),
    ensures
        trimmed(s) == s,
{
}

/// Appends `n` in base ten to `out`.
pub fn push_decimal(out: &mut Vec<char>, n: u64)
    ensures
        final(out)@ == old(out)@ + decimal(n as nat),
    decreases n,
{
    if n >= 10 {
        push_decimal(out, n / 10);
    }
    out.push(digit((n % 10) as u8));
    assert(out@ =~= old(out)@ + decimal(n as nat));
}

/// `n` written in base ten without leading zeros.
pub fn to_decimal(n: u64) -> (r: String)
    ensures
        r@ == decimal(n as nat),
{
    let mut v: Vec<char> = Vec::new();
    push_decimal(&mut v, n);
    assert(v@ =~= decimal(n as nat));
    from_chars(&v)
}

/// The `width` low hexadecimal digits of `n`, most significant first.
pub open spec fn hex_fixed(n: nat, width: nat) -> Seq<char>
    decreases width,
{
    if width == 0 {
        Seq::<char>::empty()
    } else {
        hex_fixed(n / 16, (width - 1) as nat).push(digit_char((n % 16) as int))
    }
}

/// A fixed-width hexadecimal text has `width` characters, each a hex digit.
pub proof fn lemma_hex_fixed(n: nat, width: nat)
    ensures
        hex_fixed(n, width).len() == width,
        forall|i: int| 0 <= i < width ==> is_hex_digit(#[trigger] hex_fixed(n, width)[i]),
    decreases width,
{
    if width > 0 {
        lemma_hex_fixed(n / 16, (width - 1) as nat);
        lemma_digit_char((n % 16) as int);
    }
}

/// Appends the `width` low hexadecimal digits of `n` to `out`.
pub fn push_hex(out: &mut Vec<char>, n: u64, width: u8)
    ensures
        final(out)@ == old(out)@ + hex_fixed(n as nat, width as nat),
    decreases width,
{
    if width > 0 {
        push_hex(out, n / 16, width - 1);
        out.push(digit((n % 16) as u8));
    }
    assert(out@ =~= old(out)@ + hex_fixed(n as nat, width as nat));
}

/// The lines of `s`: the pieces between line feeds, each without the carriage
/// return that stood before its line feed; text after the last line feed is a
/// line only if it is not empty.
pub open spec fn lines_of(s: Seq<char>) -> Seq<Seq<char>> {
    let pieces = split_on(s, '\n');
    let ended = pieces.drop_last().map_values(|p: Seq<char>| without_cr(p));
    if pieces.last().len() == 0 {
        ended
    } else {
        ended.push(pieces.last())
    }
}

/// `p` without one trailing carriage return, if it has one.
pub open spec fn without_cr(p: Seq<char>) -> Seq<char> {
    if p.len() > 0 && p.last() == '\r' {
        p.drop_last()
    } else {
        p
    }
}

/// The lines of `s`.
pub fn lines(s: &Vec<char>) -> (r: Vec<Vec<char>>)
    ensures
        views_of(r@) == lines_of(s@),
{
    let pieces = split(s, '\n');
    let mut r: Vec<Vec<char>> = Vec::new();
    let last = pieces.len() - 1;
    let mut i: usize = 0;
    while i < last
        invariant
            i <= last == pieces.len() - 1,
            views_of(r@) == views_of(pieces@).subrange(0, i as int).map_values(
                |p: Seq<char>| without_cr(p),
            ),
        decreases last - i,
    {
        let p = &pieces[i];
        let ghost r0 = views_of(r@);
        let end: usize = if p.len() > 0 && p[p.len() - 1] == '\r' {
            p.len() - 1
        } else {
            p.len()
        };
        let q = slice(p, 0, end);
        assert(q@ =~= without_cr(p@));
        r.push(q);
        assert(views_of(r@) =~= r0.push(without_cr(p@)));
        i += 1;
        assert(views_of(r@) =~= views_of(pieces@).subrange(0, i as int).map_values(
            |p: Seq<char>| without_cr(p),
        ));
    }
    assert(views_of(pieces@).subrange(0, last as int) =~= views_of(pieces@).drop_last());
    if pieces[last].len() > 0 {
        let ghost r0 = views_of(r@);
        let q = slice(&pieces[last], 0, pieces[last].len());
        assert(q@ =~= pieces@[last as int]@);
        r.push(q);
        assert(views_of(r@) =~= r0.push(pieces@[last as int]@));
    }
    r
}

} // verus!
