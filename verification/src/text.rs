//! Character-level text helpers, specified over `Seq<char>`.
use vstd::prelude::*;

verus! {

/// `s` begins with `p`.
pub open spec fn has_prefix(s: Seq<char>, p: Seq<char>) -> bool {
    p.len() <= s.len() && s.take(p.len() as int) == p
}

/// `s` ends with `p`.
pub open spec fn has_suffix(s: Seq<char>, p: Seq<char>) -> bool {
    p.len() <= s.len() && s.skip(s.len() - p.len()) == p
}

/// `sub` occurs in `s` starting at index `i`.
pub open spec fn occurs_at(s: Seq<char>, sub: Seq<char>, i: int) -> bool {
    0 <= i && i + sub.len() <= s.len() && s.subrange(i, i + sub.len()) == sub
}

/// `sub` occurs somewhere in `s`.
pub open spec fn contains_seq(s: Seq<char>, sub: Seq<char>) -> bool {
    exists|i: int| occurs_at(s, sub, i)
}

/// The decimal digit character for `d` (`d < 10`).
pub open spec fn digit_char(d: nat) -> char {
    ((d + 48) as u32) as char
}

/// The decimal representation of `n`, without leading zeros.
pub open spec fn decimal(n: nat) -> Seq<char>
    decreases n,
{
    if n < 10 {
        seq![digit_char(n)]
    } else {
        decimal(n / 10).push(digit_char(n % 10))
    }
}

/// Items of `parts` joined by `sep`.
pub open spec fn join(parts: Seq<Seq<char>>, sep: Seq<char>) -> Seq<char>
    decreases parts.len(),
{
    if parts.len() == 0 {
        Seq::empty()
    } else if parts.len() == 1 {
        parts[0]
    } else {
        join(parts.drop_last(), sep) + sep + parts.last()
    }
}

/// The characters of an optional string.
pub open spec fn opt_chars(o: Option<String>) -> Option<Seq<char>> {
    match o {
        Some(s) => Some(s@),
        None => None,
    }
}

/// The Unicode `White_Space` characters, the ones `char::is_whitespace` accepts.
pub open spec fn is_white_space(c: char) -> bool {
    let n = c as u32;
    (0x9 <= n <= 0xd) || n == 0x20 || n == 0x85 || n == 0xa0 || n == 0x1680
        || (0x2000 <= n <= 0x200a) || n == 0x2028 || n == 0x2029 || n == 0x202f || n == 0x205f
        || n == 0x3000
}

/// Every character of `s` is white space (so `s.trim()` is empty).
pub open spec fn all_white_space(s: Seq<char>) -> bool {
    forall|i: int| 0 <= i < s.len() ==> is_white_space(#[trigger] s[i])
}

/// Whether `c` is white space.
pub fn is_white_space_exec(c: char) -> (r: bool)
    ensures
        r == is_white_space(c),
{
    let n = c as u32;
    (0x9 <= n && n <= 0xd) || n == 0x20 || n == 0x85 || n == 0xa0 || n == 0x1680
        || (0x2000 <= n && n <= 0x200a) || n == 0x2028 || n == 0x2029 || n == 0x202f || n == 0x205f
        || n == 0x3000
}

/// Whether every character of `s` is white space.
pub fn is_blank(s: &str) -> (r: bool)
    ensures
        r == all_white_space(s@),
{
    let cs = chars_of(s);
    let mut i: usize = 0;
    while i < cs.len()
        invariant
            i <= cs.len(),
            cs@ == s@,
            forall|k: int| 0 <= k < i ==> is_white_space(#[trigger] cs@[k]),
        decreases cs.len() - i,
    {
        if !is_white_space_exec(cs[i]) {
            return false;
        }
        i += 1;
    }
    true
}

/// The number of bytes that UTF-8 uses for `c`.
pub open spec fn utf8_width(c: char) -> nat {
    let n = c as u32;
    if n < 0x80 { 1 } else if n < 0x800 { 2 } else if n < 0x10000 { 3 } else { 4 }
}

/// The number of bytes of the UTF-8 encoding of `s` (what `str::len` returns).
pub open spec fn utf8_len(s: Seq<char>) -> nat
    decreases s.len(),
{
    if s.len() == 0 { 0 } else { utf8_len(s.drop_last()) + utf8_width(s.last()) }
}

/// Whether the UTF-8 encoding of `s` is longer than `limit` bytes.
pub fn utf8_len_exceeds(s: &str, limit: u64) -> (r: bool)
    requires
        limit < 0x1000_0000,
    ensures
        r == (utf8_len(s@) > limit),
{
    let cs = chars_of(s);
    let mut acc: u64 = 0;
    let mut i: usize = 0;
    while i < cs.len()
        invariant
            i <= cs.len(),
            cs@ == s@,
            limit < 0x1000_0000,
            acc == utf8_len(cs@.take(i as int)),
            acc <= limit,
        decreases cs.len() - i,
    {
        assert(cs@.take(i + 1).drop_last() == cs@.take(i as int));
        let n = cs[i] as u32;
        let w: u64 = if n < 0x80 { 1 } else if n < 0x800 { 2 } else if n < 0x10000 { 3 } else { 4 };
        acc = acc + w;
        i += 1;
        if acc > limit {
            proof { lemma_utf8_len_prefix_le(cs@, i as int); }
            return true;
        }
    }
    assert(cs@.take(cs@.len() as int) == cs@);
    false
}

/// The UTF-8 length of a prefix is at most that of the whole sequence.
pub proof fn lemma_utf8_len_prefix_le(s: Seq<char>, k: int)
    requires
        0 <= k <= s.len(),
    ensures
        utf8_len(s.take(k)) <= utf8_len(s),
    decreases s.len() - k,
{
    if k < s.len() {
        lemma_utf8_len_prefix_le(s, k + 1);
        assert(s.take(k + 1).drop_last() == s.take(k));
    } else {
        assert(s.take(k) == s);
    }
}

/// Appends one character to a string.
/// `String::push` appends the given char to the end of the string.
#[verifier::external_body]
pub(crate) fn string_push(s: &mut String, c: char)
    ensures
        final(s)@ == old(s)@.push(c),
{
    s.push(c)
}

/// The characters of a string slice, collected into a vector.
pub fn chars_of(s: &str) -> (v: Vec<char>)
    ensures
        v@ == s@,
{
    let mut v: Vec<char> = Vec::new();
    for c in it: s.chars()
        invariant
            v@ == it.seq().take(it.index() as int),
    {
        v.push(c);
    }
    v
}

/// Appends the characters of `cs` to `s`.
pub fn push_chars(s: &mut String, cs: &[char])
    ensures
        final(s)@ == old(s)@ + cs@,
{
    let ghost start = s@;
    let mut i: usize = 0;
    while i < cs.len()
        invariant
            i <= cs.len(),
            s@ == start + cs@.take(i as int),
        decreases cs.len() - i,
    {
        string_push(s, cs[i]);
        i += 1;
        assert(start + cs@.take(i as int) == (start + cs@.take(i - 1)).push(cs@[i - 1]));
    }
    assert(cs@.take(cs@.len() as int) == cs@);
}

/// A string made of the given characters.
pub fn string_from_chars(cs: &[char]) -> (s: String)
    ensures
        s@ == cs@,
{
    let mut s = String::new();
    push_chars(&mut s, cs);
    s
}

/// Appends `t` to `s`.
pub fn push_str(s: &mut String, t: &str)
    ensures
        final(s)@ == old(s)@ + t@,
{
    let cs = chars_of(t);
    push_chars(s, cs.as_slice());
}

/// The concatenation of a list of string slices.
pub fn concat_strs(parts: &[&str]) -> (s: String)
    ensures
        s@ == parts@.map_values(|p: &str| p@).fold_left(Seq::<char>::empty(), |acc: Seq<char>, p: Seq<char>| acc + p),
{
    let mut s = String::new();
    let ghost f = |acc: Seq<char>, p: Seq<char>| acc + p;
    let ghost views = parts@.map_values(|p: &str| p@);
    let mut i: usize = 0;
    while i < parts.len()
        invariant
            i <= parts.len(),
            views == parts@.map_values(|p: &str| p@),
            f == (|acc: Seq<char>, p: Seq<char>| acc + p),
            s@ == views.take(i as int).fold_left(Seq::<char>::empty(), f),
        decreases parts.len() - i,
    {
        push_str(&mut s, parts[i]);
        assert(views.take(i + 1).drop_last() == views.take(i as int));
        i += 1;
    }
    assert(views.take(parts.len() as int) == views);
    s
}

/// Whether two strings hold the same characters.
pub fn str_equal(a: &str, b: &str) -> (r: bool)
    ensures
        r == (a@ == b@),
{
    let x = chars_of(a);
    let y = chars_of(b);
    if x.len() != y.len() {
        return false;
    }
    let mut i: usize = 0;
    while i < x.len()
        invariant
            i <= x.len(),
            x.len() == y.len(),
            x@ == a@,
            y@ == b@,
            x@.take(i as int) == y@.take(i as int),
        decreases x.len() - i,
    {
        if x[i] != y[i] {
            assert(x@[i as int] != y@[i as int]);
            assert(x@ != y@);
            return false;
        }
        assert(x@.take(i + 1) == x@.take(i as int).push(x@[i as int]));
        assert(y@.take(i + 1) == y@.take(i as int).push(y@[i as int]));
        i += 1;
    }
    assert(x@.take(x@.len() as int) == x@);
    assert(y@.take(y@.len() as int) == y@);
    true
}

/// Whether `sub` occurs at position `i` of `s`.
pub fn occurs_at_exec(s: &[char], sub: &[char], i: usize) -> (r: bool)
    ensures
        r == occurs_at(s@, sub@, i as int),
{
    if i > s.len() || sub.len() > s.len() - i {
        return false;
    }
    let mut j: usize = 0;
    while j < sub.len()
        invariant
            j <= sub.len(),
            i + sub.len() <= s.len(),
            forall|k: int| 0 <= k < j ==> s@[i + k] == sub@[k],
        decreases sub.len() - j,
    {
        if s[i + j] != sub[j] {
            assert(s@.subrange(i as int, i + sub@.len())[j as int] != sub@[j as int]);
            return false;
        }
        j += 1;
    }
    assert(s@.subrange(i as int, i + sub@.len()) == sub@);
    true
}

/// Whether `s` begins with `p`.
pub fn starts_with(s: &[char], p: &[char]) -> (r: bool)
    ensures
        r == has_prefix(s@, p@),
{
    let r = occurs_at_exec(s, p, 0);
    assert(s@.subrange(0, p@.len() as int) == s@.take(p@.len() as int));
    r
}

/// Whether `s` ends with `p`.
pub fn ends_with(s: &[char], p: &[char]) -> (r: bool)
    ensures
        r == has_suffix(s@, p@),
{
    if p.len() > s.len() {
        return false;
    }
    let r = occurs_at_exec(s, p, s.len() - p.len());
    assert(s@.subrange(s@.len() - p@.len(), s@.len() as int) == s@.skip(s@.len() - p@.len()));
    r
}

/// Whether `sub` occurs in `s`.
pub fn contains_chars(s: &[char], sub: &[char]) -> (r: bool)
    ensures
        r == contains_seq(s@, sub@),
{
    if sub.len() > s.len() {
        return false;
    }
    let mut i: usize = 0;
    loop
        invariant
            sub.len() <= s.len(),
            i <= s.len() - sub.len(),
            forall|k: int| 0 <= k < i ==> !occurs_at(s@, sub@, k),
        decreases s.len() - sub.len() - i,
    {
        if occurs_at_exec(s, sub, i) {
            return true;
        }
        if i == s.len() - sub.len() {
            assert forall|k: int| #![auto] occurs_at(s@, sub@, k) implies false by {
                assert(k <= i);
            }
            return false;
        }
        i += 1;
    }
}

/// Whether `sub` occurs in `s`.
pub fn str_contains(s: &str, sub: &str) -> (r: bool)
    ensures
        r == contains_seq(s@, sub@),
{
    let a = chars_of(s);
    let b = chars_of(sub);
    contains_chars(a.as_slice(), b.as_slice())
}

/// The decimal representation of `n`.
pub fn decimal_string(n: u64) -> (s: String)
    ensures
        s@ == decimal(n as nat),
    decreases n,
{
    if n < 10 {
        let mut s = String::new();
        string_push(&mut s, char_of_digit(n));
        s
    } else {
        let mut s = decimal_string(n / 10);
        string_push(&mut s, char_of_digit(n % 10));
        s
    }
}

/// The character of a decimal digit.
pub fn char_of_digit(d: u64) -> (c: char)
    requires
        d < 10,
    ensures
        c == digit_char(d as nat),
{
    if d == 0 { '0' }
    else if d == 1 { '1' }
    else if d == 2 { '2' }
    else if d == 3 { '3' }
    else if d == 4 { '4' }
    else if d == 5 { '5' }
    else if d == 6 { '6' }
    else if d == 7 { '7' }
    else if d == 8 { '8' }
    else { '9' }
}

/// `c` is an ASCII decimal digit.
pub open spec fn is_ascii_digit(c: char) -> bool {
    '0' <= c && c <= '9'
}

/// The value of a string of ASCII decimal digits.
pub open spec fn digits_value(s: Seq<char>) -> nat
    decreases s.len(),
{
    if s.len() == 0 {
        0
    } else {
        digits_value(s.drop_last()) * 10 + ((s.last() as u32) - 48) as nat
    }
}

/// `s` without its leading `+`, if it has one.
pub open spec fn unsigned_digits(s: Seq<char>) -> Seq<char> {
    if s.len() > 0 && s[0] == '+' { s.drop_first() } else { s }
}

/// All characters of `s` are ASCII digits.
pub open spec fn all_ascii_digits(s: Seq<char>) -> bool {
    forall|i: int| 0 <= i < s.len() ==> is_ascii_digit(#[trigger] s[i])
}

/// What `u64::from_str` gives: the value of an optional `+` followed by one or more ASCII
/// digits, when it fits in a `u64`.
pub open spec fn parse_u64_spec(s: Seq<char>) -> Option<u64> {
    let d = unsigned_digits(s);
    if d.len() > 0 && all_ascii_digits(d) && digits_value(d) <= u64::MAX {
        Some(digits_value(d) as u64)
    } else {
        None
    }
}

/// Longer strings of digits are worth at least as much as their prefixes.
proof fn lemma_digits_value_prefix(s: Seq<char>, k: int)
    requires
        0 <= k <= s.len(),
        forall|i: int| 0 <= i < s.len() ==> is_ascii_digit(#[trigger] s[i]),
    ensures
        digits_value(s.take(k)) <= digits_value(s),
    decreases s.len() - k,
{
    if k < s.len() {
        lemma_digits_value_prefix(s, k + 1);
        assert(s.take(k + 1).drop_last() == s.take(k));
    } else {
        assert(s.take(k) == s);
    }
}

/// Parses an unsigned decimal number as `u64::from_str` does.
pub fn parse_u64(s: &str) -> (r: Option<u64>)
    ensures
        r == parse_u64_spec(s@),
{
    let cs = chars_of(s);
    let start: usize = if cs.len() > 0 && cs[0] == '+' { 1 } else { 0 };
    let ghost d = unsigned_digits(s@);
    assert(d == cs@.skip(start as int));
    if start >= cs.len() {
        return None;
    }
    let mut v: u64 = 0;
    let mut i: usize = start;
    while i < cs.len()
        invariant
            start <= i <= cs@.len(),
            cs@ == s@,
            d == cs@.skip(start as int),
            d == unsigned_digits(s@),
            v == digits_value(d.take(i - start)),
            forall|j: int| 0 <= j < i - start ==> is_ascii_digit(#[trigger] d[j]),
        decreases cs.len() - i,
    {
        let c = cs[i];
        assert(d[i - start] == c);
        if !('0' <= c && c <= '9') {
            assert(!is_ascii_digit(d[i - start]));
            assert(!all_ascii_digits(d));
            return None;
        }
        let digit: u64 = (c as u32 - 48) as u64;
        assert(d.take(i + 1 - start).drop_last() == d.take(i - start));
        assert(d.take(i + 1 - start).last() == c);
        let next = match v.checked_mul(10) {
            Some(m) => m.checked_add(digit),
            None => None,
        };
        match next {
            Some(n) => {
                v = n;
            },
            None => {
                proof {
                    assert(digits_value(d.take(i + 1 - start)) == v * 10 + digit);
                    assert(v * 10 + digit > u64::MAX);
                    if all_ascii_digits(d) {
                        lemma_digits_value_prefix(d, i + 1 - start);
                    }
                }
                return None;
            },
        }
        i += 1;
    }
    assert(d.take(d.len() as int) == d);
    Some(v)
}

/// The strings of `parts` joined by `sep`, as `[String]::join` does.
pub fn join_strings(parts: &Vec<String>, sep: &str) -> (s: String)
    ensures
        s@ == join(parts.deep_view(), sep@),
{
    let ghost v = parts.deep_view();
    let mut s = String::new();
    let mut i: usize = 0;
    while i < parts.len()
        invariant
            i <= parts@.len(),
            v == parts.deep_view(),
            s@ == join(v.take(i as int), sep@),
        decreases parts.len() - i,
    {
        let ghost prev = s@;
        if i > 0 {
            push_str(&mut s, sep);
        }
        push_str(&mut s, parts[i].as_str());
        proof {
            let q = v.take(i + 1);
            assert(q.drop_last() == v.take(i as int));
            assert(q.last() == parts@[i as int]@);
            if i == 0 {
                assert(q.len() == 1);
                assert(prev == Seq::<char>::empty());
                assert(s@ == q[0]);
            }
        }
        i += 1;
    }
    assert(v.take(parts@.len() as int) == v);
    s
}

/// The decimal representation of a number is made of digits worth that number.
proof fn lemma_decimal_digits(n: nat)
    ensures
        all_ascii_digits(decimal(n)),
        digits_value(decimal(n)) == n,
        decimal(n).len() > 0,
        decimal(n)[0] != '+',
    decreases n,
{
    if n < 10 {
        let c = digit_char(n);
        assert((c as u32) == n + 48);
        assert(decimal(n).drop_last() =~= Seq::<char>::empty());
        assert(digits_value(Seq::<char>::empty()) == 0);
        assert(digits_value(decimal(n)) == digits_value(decimal(n).drop_last()) * 10 + ((c as u32) - 48) as nat);
    } else {
        lemma_decimal_digits(n / 10);
        let d = decimal(n);
        let c = digit_char(n % 10);
        assert((c as u32) == n % 10 + 48);
        assert(d.drop_last() == decimal(n / 10));
        assert(d.last() == c);
        assert(digits_value(d) == digits_value(decimal(n / 10)) * 10 + (n % 10));
        assert((n / 10) * 10 + n % 10 == n) by (nonlinear_arith);
        assert forall|i: int| 0 <= i < d.len() implies is_ascii_digit(#[trigger] d[i]) by {
            if i < d.len() - 1 {
                assert(d[i] == decimal(n / 10)[i]);
            }
        }
        assert(d[0] == decimal(n / 10)[0]);
    }
}

/// Parsing the decimal representation of a number gives the number back.
pub proof fn law_parse_decimal_roundtrip(n: u64)
    ensures
        parse_u64_spec(decimal(n as nat)) == Some(n),
{
    lemma_decimal_digits(n as nat);
    assert(unsigned_digits(decimal(n as nat)) == decimal(n as nat));
}

/// `s` with every occurrence of `from` replaced by `to`, from left to right, as `str::replace`
/// does (an empty `from` matches before each character and at the end).
pub open spec fn replace_all_spec(s: Seq<char>, from: Seq<char>, to: Seq<char>) -> Seq<char>
    decreases s.len(),
{
    if from.len() == 0 {
        if s.len() == 0 {
            to
        } else {
            to + seq![s[0]] + replace_all_spec(s.skip(1), from, to)
        }
    } else if s.len() < from.len() {
        s
    } else if has_prefix(s, from) {
        to + replace_all_spec(s.skip(from.len() as int), from, to)
    } else {
        seq![s[0]] + replace_all_spec(s.skip(1), from, to)
    }
}

/// The position of the first occurrence of `from` in `s`.
pub open spec fn first_occurrence(s: Seq<char>, from: Seq<char>) -> Option<int> {
    if exists|i: int| occurs_at(s, from, i) {
        Some(choose|i: int| occurs_at(s, from, i) && forall|j: int| 0 <= j < i ==> !occurs_at(s, from, j))
    } else {
        None
    }
}

/// `s` with its first occurrence of `from` replaced by `to`, as `str::replacen(.., 1)` does.
pub open spec fn replace_first_spec(s: Seq<char>, from: Seq<char>, to: Seq<char>) -> Seq<char> {
    match first_occurrence(s, from) {
        Some(i) => s.take(i) + to + s.skip(i + from.len()),
        None => s,
    }
}

/// `s` with every occurrence of `from` replaced by `to` (see [`replace_all_spec`]).
pub fn replace_all(s: &str, from: &str, to: &str) -> (r: String)
    ensures
        r@ == replace_all_spec(s@, from@, to@),
{
    let cs = chars_of(s);
    let f = chars_of(from);
    let t = chars_of(to);
    let mut out: Vec<char> = Vec::new();
    let mut i: usize = 0;
    assert(cs@.skip(0) == cs@);
    while i < cs.len()
        invariant
            i <= cs@.len(),
            cs@ == s@,
            f@ == from@,
            t@ == to@,
            out@ + replace_all_spec(cs@.skip(i as int), from@, to@) == replace_all_spec(s@, from@, to@),
        decreases cs.len() - i,
    {
        let ghost rest = cs@.skip(i as int);
        if f.len() == 0 {
            proof {
                assert(rest.skip(1) == cs@.skip(i + 1));
                assert(rest[0] == cs@[i as int]);
            }
            let ghost before = out@;
            out.extend_from_slice(t.as_slice());
            out.push(cs[i]);
            assert(out@ == before + to@ + seq![cs@[i as int]]);
            i += 1;
        } else if cs.len() - i < f.len() {
            proof {
                assert(rest.len() < from@.len());
            }
            let ghost before = out@;
            while i < cs.len()
                invariant
                    i <= cs@.len(),
                    before + rest == out@ + cs@.skip(i as int),
                decreases cs.len() - i,
            {
                assert(cs@.skip(i as int) == seq![cs@[i as int]] + cs@.skip(i + 1));
                out.push(cs[i]);
                i += 1;
            }
            assert(cs@.skip(i as int) =~= Seq::<char>::empty());
            assert(replace_all_spec(cs@.skip(i as int), from@, to@) =~= Seq::<char>::empty());
        } else if occurs_at_exec(cs.as_slice(), f.as_slice(), i) {
            proof {
                assert(rest.take(from@.len() as int) == cs@.subrange(i as int, i + from@.len()));
                assert(has_prefix(rest, from@));
                assert(rest.skip(from@.len() as int) == cs@.skip(i + f@.len()));
            }
            let ghost before = out@;
            out.extend_from_slice(t.as_slice());
            assert(out@ == before + to@);
            i += f.len();
        } else {
            proof {
                if has_prefix(rest, from@) {
                    assert(cs@.subrange(i as int, i + from@.len()) == rest.take(from@.len() as int));
                }
                assert(rest.skip(1) == cs@.skip(i + 1));
                assert(rest[0] == cs@[i as int]);
            }
            let ghost before = out@;
            out.push(cs[i]);
            i += 1;
        }
    }
    proof {
        assert(cs@.skip(i as int) =~= Seq::<char>::empty());
        if from@.len() == 0 {
            assert(replace_all_spec(Seq::<char>::empty(), from@, to@) == to@);
        } else {
            assert(replace_all_spec(Seq::<char>::empty(), from@, to@) == Seq::<char>::empty());
        }
    }
    let mut r = string_from_chars(out.as_slice());
    if f.len() == 0 {
        push_chars(&mut r, t.as_slice());
    }
    r
}

/// Appends the characters of `cs` from index `a` to index `b` (excluded) to `s`.
pub fn push_chars_range(s: &mut String, cs: &[char], a: usize, b: usize)
    requires
        a <= b <= cs@.len(),
    ensures
        final(s)@ == old(s)@ + cs@.subrange(a as int, b as int),
{
    let ghost start = s@;
    let mut i: usize = a;
    while i < b
        invariant
            a <= i <= b <= cs@.len(),
            s@ == start + cs@.subrange(a as int, i as int),
        decreases b - i,
    {
        string_push(s, cs[i]);
        assert(cs@.subrange(a as int, i + 1) == cs@.subrange(a as int, i as int).push(cs@[i as int]));
        i += 1;
    }
}

/// `s` with its first occurrence of `from` replaced by `to` (see [`replace_first_spec`]).
pub fn replace_first(s: &str, from: &str, to: &str) -> (r: String)
    ensures
        r@ == replace_first_spec(s@, from@, to@),
{
    let cs = chars_of(s);
    let f = chars_of(from);
    let mut i: usize = 0;
    let mut found = false;
    while i < cs.len() && !found
        invariant
            i <= cs@.len(),
            cs@ == s@,
            f@ == from@,
            found ==> occurs_at(s@, from@, i as int),
            forall|j: int| 0 <= j < i ==> !occurs_at(s@, from@, j),
        decreases cs.len() - i, if found { 0int } else { 1int },
    {
        if occurs_at_exec(cs.as_slice(), f.as_slice(), i) {
            found = true;
        } else {
            i += 1;
        }
    }
    if !found {
        found = occurs_at_exec(cs.as_slice(), f.as_slice(), i);
    }
    if found {
        proof {
            let k = choose|k: int| occurs_at(s@, from@, k) && forall|j: int| 0 <= j < k ==> !occurs_at(s@, from@, j);
            if k < i {
            } else if k > i {
                assert(!occurs_at(s@, from@, i as int));
            }
        }
        let mut r = String::new();
        push_chars_range(&mut r, cs.as_slice(), 0, i);
        push_str(&mut r, to);
        push_chars_range(&mut r, cs.as_slice(), i + f.len(), cs.len());
        assert(cs@.subrange(0, i as int) == s@.take(i as int));
        assert(cs@.subrange(i + f@.len(), cs@.len() as int) == s@.skip(i + from@.len()));
        return r;
    }
    proof {
        assert(i == cs@.len());
        assert forall|j: int| !occurs_at(s@, from@, j) by {
            if 0 <= j && j <= i {
            } else if j > i {
                assert(!(j + from@.len() <= s@.len()));
            }
        }
    }
    string_from_chars(cs.as_slice())
}

} // verus!
