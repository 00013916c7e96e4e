//! Character-level string helpers with exact specifications.

use vstd::prelude::*;

verus! {

/// The Unicode `White_Space` property, the set of characters that
/// `char::is_whitespace` and `str::trim` treat as white space.
pub open spec fn is_white_space(c: char) -> bool {
    let u = c as u32;
    ||| 0x09 <= u <= 0x0D
    ||| u == 0x20
    ||| u == 0x85
    ||| u == 0xA0
    ||| u == 0x1680
    ||| 0x2000 <= u <= 0x200A
    ||| u == 0x2028
    ||| u == 0x2029
    ||| u == 0x202F
    ||| u == 0x205F
    ||| u == 0x3000
}

/// Decides `is_white_space`.
pub fn is_white_space_char(c: char) -> (r: bool)
    ensures
        r == is_white_space(c),
{
    let u = c as u32;
    (0x09 <= u && u <= 0x0D) || u == 0x20 || u == 0x85 || u == 0xA0 || u == 0x1680 || (0x2000
        <= u && u <= 0x200A) || u == 0x2028 || u == 0x2029 || u == 0x202F || u == 0x205F || u
        == 0x3000
}

/// Whether `prefix` is a prefix of `s`.
pub fn starts_with(s: &str, prefix: &str) -> (r: bool)
    ensures
        r == prefix@.is_prefix_of(s@),
{
    let n = s.unicode_len();
    let m = prefix.unicode_len();
    if m > n {
        return false;
    }
    let mut i: usize = 0;
    while i < m
        invariant
            n == s@.len(),
            m == prefix@.len(),
            m <= n,
            i <= m,
            forall|j: int| 0 <= j < i ==> s@[j] == prefix@[j],
        decreases m - i,
    {
        if s.get_char(i) != prefix.get_char(i) {
            return false;
        }
        i = i + 1;
    }
    assert(prefix@ =~= s@.subrange(0, m as int));
    true
}


/// Whether `suffix` is a suffix of `s`.
pub fn ends_with(s: &str, suffix: &str) -> (r: bool)
    ensures
        r == suffix@.is_suffix_of(s@),
{
    let n = s.unicode_len();
    let m = suffix.unicode_len();
    if m > n {
        return false;
    }
    let off = n - m;
    let mut i: usize = 0;
    while i < m
        invariant
            n == s@.len(),
            m == suffix@.len(),
            m <= n,
            off == n - m,
            i <= m,
            forall|j: int| 0 <= j < i ==> s@[off + j] == suffix@[j],
        decreases m - i,
    {
        if s.get_char(off + i) != suffix.get_char(i) {
            return false;
        }
        i = i + 1;
    }
    assert(suffix@ =~= s@.subrange(off as int, n as int));
    true
}

/// Whether two strings are equal.
pub fn string_eq(a: &str, b: &str) -> (r: bool)
    ensures
        r == (a@ == b@),
{
    let n = a.unicode_len();
    if n != b.unicode_len() {
        return false;
    }
    let mut i: usize = 0;
    while i < n
        invariant
            n == a@.len(),
            n == b@.len(),
            i <= n,
            forall|j: int| 0 <= j < i ==> a@[j] == b@[j],
        decreases n - i,
    {
        if a.get_char(i) != b.get_char(i) {
            return false;
        }
        i = i + 1;
    }
    assert(a@ =~= b@);
    true
}

/// The concatenation of `a` and `b`, as a new `String`.
pub fn concatenate(a: &str, b: &str) -> (r: String)
    ensures
        r@ == a@ + b@,
{
    let mut r = String::from_str(a);
    r.append(b);
    r
}

/// The index of the first character at or after `i` that is not white
/// space, or the length of `s` when there is none.
pub open spec fn skip_white_forward(s: Seq<char>, i: int) -> int
    decreases s.len() - i,
{
    if 0 <= i < s.len() && is_white_space(s[i]) {
        skip_white_forward(s, i + 1)
    } else {
        i
    }
}

/// The index just past the last character before `j` that is not white
/// space, or 0 when there is none.
pub open spec fn skip_white_backward(s: Seq<char>, j: int) -> int
    decreases j,
{
    if 0 < j <= s.len() && is_white_space(s[j - 1]) {
        skip_white_backward(s, j - 1)
    } else {
        j
    }
}

/// `s` without its leading and trailing white space, as `str::trim` gives it.
pub open spec fn trimmed(s: Seq<char>) -> Seq<char> {
    let a = skip_white_forward(s, 0);
    let b = skip_white_backward(s, s.len() as int);
    if a < b {
        s.subrange(a, b)
    } else {
        Seq::empty()
    }
}

/// `s` without leading and trailing white space.
pub fn trim(s: &str) -> (r: String)
    ensures
        r@ == trimmed(s@),
{
    let n = s.unicode_len();
    let mut a: usize = 0;
    while a < n && is_white_space_char(s.get_char(a))
        invariant
            n == s@.len(),
            a <= n,
            skip_white_forward(s@, a as int) == skip_white_forward(s@, 0),
        decreases n - a,
    {
        a = a + 1;
    }
    let mut b: usize = n;
    while b > 0 && is_white_space_char(s.get_char(b - 1))
        invariant
            n == s@.len(),
            b <= n,
            skip_white_backward(s@, b as int) == skip_white_backward(s@, n as int),
        decreases b,
    {
        b = b - 1;
    }
    if a < b {
        String::from_str(s.substring_char(a, b))
    } else {
        String::new()
    }
}


/// An ASCII decimal digit.
pub open spec fn is_digit(c: char) -> bool {
    48 <= c as u32 <= 57
}

/// The value of a decimal digit.
pub open spec fn digit_value(c: char) -> int {
    c as u32 - 48
}

/// Every character of `s` is a decimal digit.
pub open spec fn all_digits(s: Seq<char>) -> bool {
    forall|i: int| 0 <= i < s.len() ==> is_digit(#[trigger] s[i])
}

/// The number that the decimal digits `s` denote (most significant first).
pub open spec fn decimal_value(s: Seq<char>) -> int
    decreases s.len(),
{
    if s.len() == 0 {
        0
    } else {
        decimal_value(s.drop_last()) * 10 + digit_value(s.last())
    }
}

/// The digits of an unsigned number written with an optional leading `+`.
pub open spec fn unsigned_digits(s: Seq<char>) -> Seq<char> {
    if s.len() > 0 && s[0] == '+' {
        s.drop_first()
    } else {
        s
    }
}

/// What `str::parse::<u32>` gives for `s`: an optional `+`, then one or more
/// decimal digits whose value fits in 32 bits; anything else is refused.
pub open spec fn parsed_u32(s: Seq<char>) -> Option<u32> {
    let d = unsigned_digits(s);
    if d.len() > 0 && all_digits(d) && decimal_value(d) <= u32::MAX {
        Some(decimal_value(d) as u32)
    } else {
        None
    }
}

proof fn lemma_decimal_value_nonneg(s: Seq<char>)
    requires
        all_digits(s),
    ensures
        decimal_value(s) >= 0,
    decreases s.len(),
{
    if s.len() > 0 {
        assert(is_digit(s[s.len() - 1]));
        lemma_decimal_value_nonneg(s.drop_last());
    }
}

/// Appending digits never makes a decimal number smaller.
proof fn lemma_decimal_value_prefix(s: Seq<char>, k: int)
    requires
        all_digits(s),
        0 <= k <= s.len(),
    ensures
        decimal_value(s.take(k)) <= decimal_value(s),
    decreases s.len(),
{
    if k < s.len() {
        assert(s.take(k) =~= s.drop_last().take(k));
        assert(is_digit(s[s.len() - 1]));
        lemma_decimal_value_prefix(s.drop_last(), k);
        lemma_decimal_value_nonneg(s.drop_last());
    } else {
        assert(s.take(k) =~= s);
    }
}

/// Parses an unsigned 32-bit decimal number the way `str::parse::<u32>` does.
pub fn parse_u32(s: &str) -> (r: Option<u32>)
    ensures
        r == parsed_u32(s@),
{
    let n = s.unicode_len();
    let start: usize = if n > 0 && s.get_char(0) == '+' { 1 } else { 0 };
    let ghost d = unsigned_digits(s@);
    assert(d =~= s@.subrange(start as int, n as int));
    if start == n {
        return None;
    }
    let mut val: u64 = 0;
    let mut i: usize = start;
    while i < n
        invariant
            n == s@.len(),
            start <= i <= n,
            start < n,
            d == s@.subrange(start as int, n as int),
            d == unsigned_digits(s@),
            all_digits(s@.subrange(start as int, i as int)),
            val == decimal_value(s@.subrange(start as int, i as int)),
            val <= u32::MAX,
        decreases n - i,
    {
        let c = s.get_char(i);
        let ghost before = s@.subrange(start as int, i as int);
        let ghost after = s@.subrange(start as int, i + 1);
        assert(after.drop_last() =~= before);
        assert(after.last() == c);
        assert(d[i - start] == c);
        let u = c as u32;
        if u < 48 || u > 57 {
            assert(!is_digit(d[i - start]));
            assert(!all_digits(d));
            return None;
        }
        assert(all_digits(after));
        assert(decimal_value(after) == decimal_value(before) * 10 + digit_value(c));
        let next = val * 10 + (u as u64 - 48);
        if next > 0xFFFF_FFFF {
            proof {
                if all_digits(d) {
                    assert(d.take(i + 1 - start) =~= after);
                    lemma_decimal_value_prefix(d, i + 1 - start);
                    assert(decimal_value(d) > u32::MAX);
                }
            }
            return None;
        }
        val = next;
        i = i + 1;
    }
    assert(s@.subrange(start as int, n as int) == d);
    Some(val as u32)
}


/// What `str::parse::<i32>` gives for `s`: an optional `+` or `-`, then one
/// or more decimal digits whose signed value fits in 32 bits.
pub open spec fn parsed_i32(s: Seq<char>) -> Option<i32> {
    let negative = s.len() > 0 && s[0] == '-';
    let d = if s.len() > 0 && (s[0] == '+' || s[0] == '-') {
        s.drop_first()
    } else {
        s
    };
    if d.len() > 0 && all_digits(d) && (if negative {
        decimal_value(d) <= 0x8000_0000
    } else {
        decimal_value(d) <= 0x7FFF_FFFF
    }) {
        Some(
            (if negative {
                -decimal_value(d)
            } else {
                decimal_value(d)
            }) as i32,
        )
    } else {
        None
    }
}

/// Parses a signed 32-bit decimal number the way `str::parse::<i32>` does.
pub fn parse_i32(s: &str) -> (r: Option<i32>)
    ensures
        r == parsed_i32(s@),
{
    let n = s.unicode_len();
    let negative = n > 0 && s.get_char(0) == '-';
    let start: usize = if n > 0 && (s.get_char(0) == '+' || s.get_char(0) == '-') {
        1
    } else {
        0
    };
    let limit: u64 = if negative { 0x8000_0000 } else { 0x7FFF_FFFF };
    let ghost d = s@.subrange(start as int, n as int);
    assert(d =~= (if s@.len() > 0 && (s@[0] == '+' || s@[0] == '-') {
        s@.drop_first()
    } else {
        s@
    }));
    if start == n {
        return None;
    }
    let mut val: u64 = 0;
    let mut i: usize = start;
    while i < n
        invariant
            n == s@.len(),
            start <= i <= n,
            start < n,
            d == s@.subrange(start as int, n as int),
            all_digits(s@.subrange(start as int, i as int)),
            val == decimal_value(s@.subrange(start as int, i as int)),
            val <= limit,
            negative == (s@.len() > 0 && s@[0] == '-'),
            limit == (if negative { 0x8000_0000u64 } else { 0x7FFF_FFFFu64 }),
            d == (if s@.len() > 0 && (s@[0] == '+' || s@[0] == '-') {
                s@.drop_first()
            } else {
                s@
            }),
        decreases n - i,
    {
        let c = s.get_char(i);
        let ghost before = s@.subrange(start as int, i as int);
        let ghost after = s@.subrange(start as int, i + 1);
        assert(after.drop_last() =~= before);
        assert(after.last() == c);
        assert(d[i - start] == c);
        let u = c as u32;
        if u < 48 || u > 57 {
            assert(!is_digit(d[i - start]));
            assert(!all_digits(d));
            return None;
        }
        assert(all_digits(after));
        assert(decimal_value(after) == decimal_value(before) * 10 + digit_value(c));
        let next = val * 10 + (u as u64 - 48);
        if next > limit {
            proof {
                if all_digits(d) {
                    assert(d.take(i + 1 - start) =~= after);
                    lemma_decimal_value_prefix(d, i + 1 - start);
                    assert(decimal_value(d) > limit);
                }
            }
            return None;
        }
        val = next;
        i = i + 1;
    }
    assert(s@.subrange(start as int, n as int) == d);
    if negative {
        Some((0 - (val as i64)) as i32)
    } else {
        Some(val as i32)
    }
}


proof fn lemma_skip_white_forward(s: Seq<char>, i: int)
    requires
        0 <= i <= s.len(),
    ensures
        i <= skip_white_forward(s, i) <= s.len(),
        skip_white_forward(s, i) < s.len() ==> !is_white_space(s[skip_white_forward(s, i)]),
    decreases s.len() - i,
{
    if i < s.len() && is_white_space(s[i]) {
        lemma_skip_white_forward(s, i + 1);
    }
}

proof fn lemma_skip_white_backward(s: Seq<char>, j: int)
    requires
        0 <= j <= s.len(),
    ensures
        0 <= skip_white_backward(s, j) <= j,
        skip_white_backward(s, j) > 0 ==> !is_white_space(s[skip_white_backward(s, j) - 1]),
    decreases j,
{
    if 0 < j && is_white_space(s[j - 1]) {
        lemma_skip_white_backward(s, j - 1);
    }
}

/// Trimming twice trims no more than trimming once.
pub proof fn lemma_trim_idempotent(s: Seq<char>)
    ensures
        trimmed(trimmed(s)) == trimmed(s),
{
    let a = skip_white_forward(s, 0);
    let b = skip_white_backward(s, s.len() as int);
    lemma_skip_white_forward(s, 0);
    lemma_skip_white_backward(s, s.len() as int);
    let t = trimmed(s);
    if a < b {
        assert(t[0] == s[a]);
        assert(t[t.len() - 1] == s[b - 1]);
        assert(skip_white_forward(t, 0) == 0);
        assert(skip_white_backward(t, t.len() as int) == t.len());
        assert(trimmed(t) =~= t);
    } else {
        assert(t.len() == 0);
        assert(trimmed(t) =~= t);
    }
}

/// The decimal digit character for `d`.
pub open spec fn digit_char(d: nat) -> char {
    (48 + d) as char
}

/// The decimal rendering of `n`, without leading zeros.
pub open spec fn decimal_digits(n: nat) -> Seq<char>
    decreases n,
{
    if n < 10 {
        seq![digit_char(n)]
    } else {
        decimal_digits(n / 10).push(digit_char(n % 10))
    }
}

proof fn lemma_decimal_digits(n: nat)
    ensures
        decimal_digits(n).len() > 0,
        all_digits(decimal_digits(n)),
        decimal_value(decimal_digits(n)) == n,
        decimal_digits(n)[0] != '+',
        !is_white_space(decimal_digits(n)[0]),
        !is_white_space(decimal_digits(n).last()),
    decreases n,
{
    if n < 10 {
        let d = decimal_digits(n);
        assert(d.drop_last() =~= Seq::<char>::empty());
        assert(decimal_value(d.drop_last()) == 0);
    } else {
        lemma_decimal_digits(n / 10);
        let d = decimal_digits(n);
        assert(d.drop_last() =~= decimal_digits(n / 10));
        assert(forall|i: int| 0 <= i < d.len() - 1 ==> d[i] == decimal_digits(n / 10)[i]);
        assert(n == (n / 10) * 10 + n % 10);
    }
}

/// A number written in decimal reads back as itself.
pub proof fn lemma_parse_u32_decimal(n: u32)
    ensures
        parsed_u32(decimal_digits(n as nat)) == Some(n),
        trimmed(decimal_digits(n as nat)) == decimal_digits(n as nat),
{
    let d = decimal_digits(n as nat);
    lemma_decimal_digits(n as nat);
    assert(unsigned_digits(d) == d);
    assert(skip_white_forward(d, 0) == 0);
    assert(skip_white_backward(d, d.len() as int) == d.len());
    assert(trimmed(d) =~= d);
}


/// A signed number written in decimal, with a leading `-` when negative,
/// reads back as itself.
pub proof fn lemma_parse_i32_decimal(n: i32)
    ensures
        n >= 0 ==> parsed_i32(decimal_digits(n as nat)) == Some(n),
        n < 0 ==> parsed_i32(seq!['-'] + decimal_digits((-n) as nat)) == Some(n),
{
    if n >= 0 {
        let d = decimal_digits(n as nat);
        lemma_decimal_digits(n as nat);
        assert(d[0] != '-') by {
            assert(is_digit(d[0]));
        }
    } else {
        let m: nat = (-n) as nat;
        let d = decimal_digits(m);
        lemma_decimal_digits(m);
        let s = seq!['-'] + d;
        assert(s.drop_first() =~= d);
        assert(s[0] == '-');
    }
}

/// What trimming takes away: `trimmed(s)` is the part of `s` between a run
/// of white space at its start and one at its end, and it neither begins
/// nor ends with white space.
pub proof fn lemma_trimmed_shape(s: Seq<char>)
    ensures
        exists|a: int, b: int|
            #![trigger s.subrange(a, b)]
            0 <= a <= b <= s.len() && trimmed(s) == s.subrange(a, b) && (forall|i: int|
                0 <= i < a ==> is_white_space(#[trigger] s[i])) && (forall|i: int|
                b <= i < s.len() ==> is_white_space(#[trigger] s[i])),
        trimmed(s).len() > 0 ==> !is_white_space(trimmed(s)[0]) && !is_white_space(
            trimmed(s).last(),
        ),
        (forall|i: int| 0 <= i < s.len() ==> is_white_space(#[trigger] s[i])) ==> trimmed(s).len()
            == 0,
{
    let a = skip_white_forward(s, 0);
    let b = skip_white_backward(s, s.len() as int);
    lemma_skip_white_forward(s, 0);
    lemma_skip_white_backward(s, s.len() as int);
    lemma_skip_white_forward_prefix(s, 0);
    lemma_skip_white_backward_suffix(s, s.len() as int);
    if a < b {
        assert(trimmed(s) == s.subrange(a, b));
    } else {
        assert(trimmed(s) =~= s.subrange(a, a));
        assert forall|i: int| a <= i < s.len() implies is_white_space(#[trigger] s[i]) by {
            if i < b {
            }
        }
    }
}

proof fn lemma_skip_white_forward_prefix(s: Seq<char>, i: int)
    requires
        0 <= i <= s.len(),
        forall|k: int| 0 <= k < i ==> is_white_space(#[trigger] s[k]),
    ensures
        forall|k: int| 0 <= k < skip_white_forward(s, i) ==> is_white_space(#[trigger] s[k]),
    decreases s.len() - i,
{
    if i < s.len() && is_white_space(s[i]) {
        lemma_skip_white_forward_prefix(s, i + 1);
    }
}

proof fn lemma_skip_white_backward_suffix(s: Seq<char>, j: int)
    requires
        0 <= j <= s.len(),
        forall|k: int| j <= k < s.len() ==> is_white_space(#[trigger] s[k]),
    ensures
        forall|k: int|
            skip_white_backward(s, j) <= k < s.len() ==> is_white_space(#[trigger] s[k]),
    decreases j,
{
    if 0 < j && is_white_space(s[j - 1]) {
        lemma_skip_white_backward_suffix(s, j - 1);
    }
}

} // verus!
