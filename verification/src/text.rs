//! Text helpers shared by the rest of the crate.
//!
//! Strings cross the public interface as `&str` and `String`; inside, the
//! logic works on sequences of characters, so that every contract can speak
//! of `Seq<char>` and of positions in it.

use vstd::prelude::*;

verus! {

/// Appends one character to a string by `String::push`: afterwards the
/// string holds the characters it held before, followed by `c`.
#[verifier::external_body]
pub(crate) fn push_char(s: &mut String, c: char)
    ensures
        final(s)@ == old(s)@.push(c),
{
    s.push(c)
}

/// The characters of a string slice, in order.
pub fn chars_of(s: &str) -> (v: Vec<char>)
    ensures
        v@ == s@,
{
    let mut v: Vec<char> = Vec::new();
    for c in it: s.chars()
        invariant
            v@ == it.seq().take(it.index() as int),
            it.seq() == s@,
    {
        v.push(c);
    }
    v
}

/// The string made of the given characters.
pub fn string_of(v: &[char]) -> (s: String)
    ensures
        s@ == v@,
{
    let mut s = String::new();
    let mut i: usize = 0;
    while i < v.len()
        invariant
            i <= v.len(),
            s@ == v@.take(i as int),
        decreases v.len() - i,
    {
        push_char(&mut s, v[i]);
        assert(v@.take(i as int).push(v@[i as int]) =~= v@.take(i + 1));
        i += 1;
    }
    assert(v@.take(v@.len() as int) =~= v@);
    s
}

/// A copy of `v[from..to]`.
pub fn copy_range(v: &[char], from: usize, to: usize) -> (r: Vec<char>)
    requires
        from <= to <= v@.len(),
    ensures
        r@ == v@.subrange(from as int, to as int),
{
    let mut r: Vec<char> = Vec::new();
    let mut i: usize = from;
    while i < to
        invariant
            from <= i <= to <= v@.len(),
            r@ == v@.subrange(from as int, i as int),
        decreases to - i,
    {
        r.push(v[i]);
        assert(v@.subrange(from as int, i as int).push(v@[i as int]) =~= v@.subrange(
            from as int,
            i + 1,
        ));
        i += 1;
    }
    r
}

/// Whether two character slices hold the same characters.
pub fn same_chars(a: &[char], b: &[char]) -> (r: bool)
    ensures
        r == (a@ == b@),
{
    if a.len() != b.len() {
        return false;
    }
    let mut i: usize = 0;
    while i < a.len()
        invariant
            i <= a.len(),
            a@.len() == b@.len(),
            a@.take(i as int) == b@.take(i as int),
        decreases a.len() - i,
    {
        if a[i] != b[i] {
            assert(a@[i as int] != b@[i as int]);
            return false;
        }
        assert(a@.take(i + 1) =~= a@.take(i as int).push(a@[i as int]));
        assert(b@.take(i + 1) =~= b@.take(i as int).push(b@[i as int]));
        i += 1;
    }
    assert(a@.take(a@.len() as int) =~= a@);
    assert(b@.take(b@.len() as int) =~= b@);
    true
}

/// Whether the characters are exactly those of `lit`.
pub fn is_text(a: &[char], lit: &str) -> (r: bool)
    ensures
        r == (a@ == lit@),
{
    let l = chars_of(lit);
    same_chars(a, l.as_slice())
}

/// Whether `s` begins with `prefix`.
pub open spec fn starts_with(s: Seq<char>, prefix: Seq<char>) -> bool {
    prefix.len() <= s.len() && s.take(prefix.len() as int) == prefix
}

/// Whether `s` ends with `suffix`.
pub open spec fn ends_with(s: Seq<char>, suffix: Seq<char>) -> bool {
    suffix.len() <= s.len() && s.skip(s.len() - suffix.len()) == suffix
}

pub fn has_prefix(a: &[char], prefix: &str) -> (r: bool)
    ensures
        r == starts_with(a@, prefix@),
{
    let p = chars_of(prefix);
    if p.len() > a.len() {
        return false;
    }
    let head = copy_range(a, 0, p.len());
    same_chars(head.as_slice(), p.as_slice())
}

pub fn has_suffix(a: &[char], suffix: &str) -> (r: bool)
    ensures
        r == ends_with(a@, suffix@),
{
    let p = chars_of(suffix);
    if p.len() > a.len() {
        return false;
    }
    let tail = copy_range(a, a.len() - p.len(), a.len());
    same_chars(tail.as_slice(), p.as_slice())
}

/// The characters with the Unicode property `White_Space`.
pub open spec fn is_space(c: char) -> bool {
    let n = c as u32;
    (0x09 <= n <= 0x0D) || n == 0x20 || n == 0x85 || n == 0xA0 || n == 0x1680 || (0x2000 <= n
        <= 0x200A) || n == 0x2028 || n == 0x2029 || n == 0x202F || n == 0x205F || n == 0x3000
}

pub fn is_whitespace(c: char) -> (r: bool)
    ensures
        r == is_space(c),
{
    let n: u32 = c as u32;
    (0x09 <= n && n <= 0x0D) || n == 0x20 || n == 0x85 || n == 0xA0 || n == 0x1680 || (0x2000 <= n
        && n <= 0x200A) || n == 0x2028 || n == 0x2029 || n == 0x202F || n == 0x205F || n
        == 0x3000
}

/// `s` without its leading white space.
pub open spec fn trim_start_spec(s: Seq<char>) -> Seq<char>
    decreases s.len(),
{
    if s.len() > 0 && is_space(s[0]) {
        trim_start_spec(s.skip(1))
    } else {
        s
    }
}

/// `s` without its trailing white space.
pub open spec fn trim_end_spec(s: Seq<char>) -> Seq<char>
    decreases s.len(),
{
    if s.len() > 0 && is_space(s[s.len() - 1]) {
        trim_end_spec(s.take(s.len() - 1))
    } else {
        s
    }
}

/// `s` without leading and trailing white space.
pub open spec fn trim_spec(s: Seq<char>) -> Seq<char> {
    trim_end_spec(trim_start_spec(s))
}

pub proof fn lemma_trim_start_skip(s: Seq<char>, n: int)
    requires
        0 <= n <= s.len(),
        forall|k: int| 0 <= k < n ==> is_space(#[trigger] s[k]),
    ensures
        trim_start_spec(s) == trim_start_spec(s.skip(n)),
    decreases n,
{
    if n > 0 {
        assert(s.skip(1).skip(n - 1) =~= s.skip(n));
        assert forall|k: int| 0 <= k < n - 1 implies is_space(#[trigger] s.skip(1)[k]) by {
            assert(s.skip(1)[k] == s[k + 1]);
        }
        lemma_trim_start_skip(s.skip(1), n - 1);
    } else {
        assert(s.skip(0) =~= s);
    }
}

pub proof fn lemma_trim_end_take(s: Seq<char>, n: int)
    requires
        0 <= n <= s.len(),
        forall|k: int| n <= k < s.len() ==> is_space(#[trigger] s[k]),
    ensures
        trim_end_spec(s) == trim_end_spec(s.take(n)),
    decreases s.len() - n,
{
    if n < s.len() {
        let s1 = s.take(s.len() - 1);
        assert(s1.take(n) =~= s.take(n));
        assert forall|k: int| n <= k < s1.len() implies is_space(#[trigger] s1[k]) by {
            assert(s1[k] == s[k]);
        }
        lemma_trim_end_take(s1, n);
    } else {
        assert(s.take(n) =~= s);
    }
}

/// Removes leading and trailing white space.
pub fn trim(v: &[char]) -> (r: Vec<char>)
    ensures
        r@ == trim_spec(v@),
{
    let mut a: usize = 0;
    while a < v.len() && is_whitespace(v[a])
        invariant
            a <= v.len(),
            forall|k: int| 0 <= k < a ==> is_space(#[trigger] v@[k]),
        decreases v.len() - a,
    {
        a += 1;
    }
    let mut b: usize = v.len();
    while b > a && is_whitespace(v[b - 1])
        invariant
            a <= b <= v.len(),
            forall|k: int| b <= k < v@.len() ==> is_space(#[trigger] v@[k]),
        decreases b,
    {
        b -= 1;
    }
    proof {
        let s1 = v@.skip(a as int);
        lemma_trim_start_skip(v@, a as int);
        assert(trim_start_spec(s1) == s1) by {
            if s1.len() > 0 {
                assert(s1[0] == v@[a as int]);
            }
        }
        assert forall|k: int| b - a <= k < s1.len() implies is_space(#[trigger] s1[k]) by {
            assert(s1[k] == v@[k + a]);
        }
        lemma_trim_end_take(s1, b - a);
        let s2 = s1.take(b - a);
        assert(s2 =~= v@.subrange(a as int, b as int));
        assert(trim_end_spec(s2) == s2) by {
            if s2.len() > 0 {
                assert(s2[s2.len() - 1] == v@[b - 1]);
            }
        }
    }
    copy_range(v, a, b)
}

/// The least position at or after `from` at which `c` stands in `s`, or the
/// length of `s` where there is none.
pub open spec fn index_from(s: Seq<char>, c: char, from: int) -> int
    decreases s.len() - from,
{
    if from < 0 || from >= s.len() {
        s.len() as int
    } else if s[from] == c {
        from
    } else {
        index_from(s, c, from + 1)
    }
}

pub proof fn lemma_index_from(s: Seq<char>, c: char, from: int)
    requires
        0 <= from <= s.len(),
    ensures
        from <= index_from(s, c, from) <= s.len(),
        index_from(s, c, from) < s.len() ==> s[index_from(s, c, from)] == c,
        forall|k: int| from <= k < index_from(s, c, from) ==> #[trigger] s[k] != c,
    decreases s.len() - from,
{
    if from < s.len() && s[from] != c {
        lemma_index_from(s, c, from + 1);
    }
}

/// The first `c` at or after `from` is where nothing but `c` itself stands
/// in the way.
pub proof fn lemma_index_is(s: Seq<char>, c: char, from: int, i: int)
    requires
        0 <= from <= i <= s.len(),
        i < s.len() ==> s[i] == c,
        forall|k: int| from <= k < i ==> #[trigger] s[k] != c,
    ensures
        index_from(s, c, from) == i,
{
    lemma_index_from(s, c, from);
    let j = index_from(s, c, from);
    if j < i {
        assert(s[j] != c);
    } else if i < j {
        assert(s[i] != c);
    }
}

/// Two texts that are joined by a separator part into the pieces of the
/// first and the pieces of the second.
pub proof fn lemma_split_joined(x: Seq<char>, y: Seq<char>, sep: char)
    ensures
        split_spec(x + seq![sep] + y, sep) == split_spec(x, sep) + split_spec(y, sep),
    decreases x.len(),
{
    let s = x + seq![sep] + y;
    let i = index_from(x, sep, 0);
    lemma_index_from(x, sep, 0);
    if i < x.len() {
        assert forall|k: int| 0 <= k < i implies #[trigger] s[k] != sep by {
            assert(s[k] == x[k]);
        }
        assert(s[i] == x[i]);
        lemma_index_is(s, sep, 0, i);
        assert(s.take(i) =~= x.take(i));
        assert(s.skip(i + 1) =~= x.skip(i + 1) + seq![sep] + y);
        lemma_split_joined(x.skip(i + 1), y, sep);
        assert(split_spec(s, sep) =~= split_spec(x, sep) + split_spec(y, sep));
    } else {
        assert forall|k: int| 0 <= k < x.len() implies #[trigger] s[k] != sep by {
            assert(s[k] == x[k]);
        }
        assert(s[x.len() as int] == sep);
        lemma_index_is(s, sep, 0, x.len() as int);
        assert(s.take(x.len() as int) =~= x);
        assert(s.skip(x.len() as int + 1) =~= y);
        assert(split_spec(x, sep) == seq![x]);
    }
}

/// Finds the first `c` at or after `from`.
pub fn find_from(v: &[char], c: char, from: usize) -> (r: usize)
    requires
        from <= v@.len(),
    ensures
        r == index_from(v@, c, from as int),
        from <= r <= v@.len(),
{
    let mut i: usize = from;
    while i < v.len() && v[i] != c
        invariant
            from <= i <= v.len(),
            index_from(v@, c, from as int) == index_from(v@, c, i as int),
        decreases v.len() - i,
    {
        i += 1;
    }
    i
}

/// The pieces of `s` between occurrences of `sep`; there is always at least
/// one piece, and a piece may be empty.
pub open spec fn split_spec(s: Seq<char>, sep: char) -> Seq<Seq<char>>
    decreases s.len(),
{
    let i = index_from(s, sep, 0);
    if 0 <= i < s.len() {
        seq![s.take(i)] + split_spec(s.skip(i + 1), sep)
    } else {
        seq![s]
    }
}

/// Splits at every `sep`.
pub fn split(v: &[char], sep: char) -> (r: Vec<Vec<char>>)
    ensures
        r.deep_view() == split_spec(v@, sep),
        r@.len() >= 1,
{
    let mut r: Vec<Vec<char>> = Vec::new();
    let mut start: usize = 0;
    proof {
        assert(v@.skip(0) =~= v@);
        assert(r.deep_view() + split_spec(v@, sep) =~= split_spec(v@, sep));
    }
    loop
        invariant_except_break
            start <= v.len(),
            r.deep_view() + split_spec(v@.skip(start as int), sep) == split_spec(v@, sep),
        ensures
            r.deep_view() == split_spec(v@, sep),
            r@.len() >= 1,
        decreases v.len() - start,
    {
        let i = find_from(v, sep, start);
        proof {
            lemma_index_shift(v@, sep, start as int);
        }
        let piece = copy_range(v, start, i);
        let ghost before = r.deep_view();
        r.push(piece);
        proof {
            let rest = v@.skip(start as int);
            assert(rest.take(i - start) =~= v@.subrange(start as int, i as int));
            assert(r.deep_view() =~= before + seq![piece@]) by {
                assert(r@.len() == before.len() + 1);
                assert forall|k: int| 0 <= k < r@.len() implies #[trigger] r.deep_view()[k] == (
                before + seq![piece@])[k] by {}
            }
            if i < v.len() {
                assert(rest.skip(i - start + 1) =~= v@.skip(i + 1));
                assert(before + (seq![piece@] + split_spec(v@.skip(i + 1), sep)) =~= before
                    + seq![piece@] + split_spec(v@.skip(i + 1), sep));
            } else {
                assert(piece@ =~= rest);
                assert(before + seq![rest] =~= r.deep_view());
            }
        }
        if i >= v.len() {
            break ;
        }
        start = i + 1;
    }
    r
}

pub proof fn lemma_index_shift(s: Seq<char>, c: char, n: int)
    requires
        0 <= n <= s.len(),
    ensures
        index_from(s.skip(n), c, 0) == index_from(s, c, n) - n,
{
    lemma_index_shift_at(s, c, n, 0);
}

pub proof fn lemma_index_shift_at(s: Seq<char>, c: char, n: int, k: int)
    requires
        0 <= n <= s.len(),
        0 <= k <= s.len() - n,
    ensures
        index_from(s.skip(n), c, k) == index_from(s, c, n + k) - n,
    decreases s.len() - n - k,
{
    if k < s.len() - n {
        assert(s.skip(n)[k] == s[n + k]);
        if s[n + k] != c {
            lemma_index_shift_at(s, c, n, k + 1);
        }
    }
}

/// The two parts of `s` around its first `sep`, if it holds one.
pub open spec fn split_once_spec(s: Seq<char>, sep: char) -> Option<(Seq<char>, Seq<char>)> {
    let i = index_from(s, sep, 0);
    if 0 <= i < s.len() {
        Some((s.take(i), s.skip(i + 1)))
    } else {
        None
    }
}

pub fn split_once(v: &[char], sep: char) -> (r: Option<(Vec<char>, Vec<char>)>)
    ensures
        match r {
            Some((a, b)) => split_once_spec(v@, sep) == Some((a@, b@)),
            None => split_once_spec(v@, sep).is_none(),
        },
{
    let i = find_from(v, sep, 0);
    if i < v.len() {
        let a = copy_range(v, 0, i);
        let b = copy_range(v, i + 1, v.len());
        assert(v@.take(i as int) =~= v@.subrange(0, i as int));
        assert(v@.skip(i + 1) =~= v@.subrange(i + 1, v@.len() as int));
        Some((a, b))
    } else {
        None
    }
}

/// Appends the characters of `more` to `v`.
pub fn extend_chars(v: &mut Vec<char>, more: &[char])
    ensures
        final(v)@ == old(v)@ + more@,
{
    let mut i: usize = 0;
    while i < more.len()
        invariant
            i <= more.len(),
            v@ == old(v)@ + more@.take(i as int),
        decreases more.len() - i,
    {
        v.push(more[i]);
        assert(old(v)@ + more@.take(i + 1) =~= (old(v)@ + more@.take(i as int)).push(
            more@[i as int],
        ));
        i += 1;
    }
    assert(more@.take(more@.len() as int) =~= more@);
}

/// Appends the characters of a string slice to `v`.
pub fn extend_str(v: &mut Vec<char>, more: &str)
    ensures
        final(v)@ == old(v)@ + more@,
{
    let m = chars_of(more);
    extend_chars(v, m.as_slice());
}

/// The character of a decimal digit.
pub open spec fn digit_char(d: int) -> char {
    ((48 + d) as u8) as char
}

/// Whether `c` is one of `0` to `9`.
pub open spec fn is_digit(c: char) -> bool {
    48 <= c as u32 <= 57
}

/// The decimal digits of `n`, without leading zeros.
pub open spec fn decimal_nat(n: nat) -> Seq<char>
    decreases n,
{
    if n < 10 {
        seq![digit_char(n as int)]
    } else {
        decimal_nat(n / 10).push(digit_char((n % 10) as int))
    }
}

/// `n` in decimal, with a minus sign where it is negative.
pub open spec fn decimal(n: int) -> Seq<char> {
    if n < 0 {
        seq!['-'] + decimal_nat((-n) as nat)
    } else {
        decimal_nat(n as nat)
    }
}

/// Appends the decimal digits of `n`.
pub fn push_decimal(v: &mut Vec<char>, n: u64)
    ensures
        final(v)@ == old(v)@ + decimal_nat(n as nat),
    decreases n,
{
    if n >= 10 {
        push_decimal(v, n / 10);
    }
    let d: u8 = (n % 10) as u8;
    v.push((48u8 + d) as char);
    proof {
        if n >= 10 {
            assert(v@ =~= old(v)@ + decimal_nat(n as nat));
        } else {
            assert(v@ =~= old(v)@ + decimal_nat(n as nat));
        }
    }
}

/// Appends `n` in decimal.
pub fn push_signed(v: &mut Vec<char>, n: i64)
    ensures
        final(v)@ == old(v)@ + decimal(n as int),
{
    if n < 0 {
        v.push('-');
        let m: u64 = if n == i64::MIN {
            9223372036854775808u64
        } else {
            (-n) as u64
        };
        let ghost mid = v@;
        push_decimal(v, m);
        assert(v@ =~= old(v)@ + decimal(n as int));
    } else {
        push_decimal(v, n as u64);
    }
}

/// The number that a run of decimal digits stands for.
pub open spec fn digits_value(s: Seq<char>) -> nat
    decreases s.len(),
{
    if s.len() == 0 {
        0
    } else {
        (digits_value(s.drop_last()) * 10 + (s.last() as u32 - 48)) as nat
    }
}

/// Whether every character is a decimal digit.
pub open spec fn all_digits(s: Seq<char>) -> bool {
    forall|i: int| 0 <= i < s.len() ==> is_digit(#[trigger] s[i])
}

/// The integer between `lo` and `hi` that `s` writes in decimal: an optional
/// sign, then at least one digit and nothing else. A minus sign is read only
/// where `lo` is negative.
pub open spec fn parse_decimal(s: Seq<char>, lo: int, hi: int) -> Option<int> {
    let signed = s.len() > 0 && (s[0] == '+' || (s[0] == '-' && lo < 0));
    let body = if signed {
        s.skip(1)
    } else {
        s
    };
    let value = if signed && s[0] == '-' {
        -(digits_value(body) as int)
    } else {
        digits_value(body) as int
    };
    if body.len() > 0 && all_digits(body) && lo <= value <= hi {
        Some(value)
    } else {
        None
    }
}

proof fn lemma_digits_grow(s: Seq<char>, n: int)
    requires
        0 <= n <= s.len(),
        all_digits(s),
    ensures
        digits_value(s.take(n)) <= digits_value(s),
    decreases s.len() - n,
{
    if n < s.len() {
        assert(s.drop_last().take(n) =~= s.take(n));
        assert(all_digits(s.drop_last()));
        lemma_digits_grow(s.drop_last(), n);
        assert(is_digit(s[s.len() - 1]));
    } else {
        assert(s.take(n) =~= s);
    }
}

/// Reads a decimal integer in the range from `lo` to `hi`.
pub fn parse_int(v: &[char], lo: i64, hi: i64) -> (r: Option<i64>)
    requires
        -0x8000_0000_0000 <= lo <= 0 <= hi <= 0x8000_0000_0000,
    ensures
        match r {
            Some(x) => parse_decimal(v@, lo as int, hi as int) == Some(x as int),
            None => parse_decimal(v@, lo as int, hi as int).is_none(),
        },
{
    let n: usize = v.len();
    let mut start: usize = 0;
    let mut neg: bool = false;
    if n > 0 && (v[0] == '+' || (v[0] == '-' && lo < 0)) {
        start = 1;
        neg = v[0] == '-';
    }
    let ghost body = v@.skip(start as int);
    let ghost signed = v@.len() > 0 && (v@[0] == '+' || (v@[0] == '-' && lo < 0));
    assert(v@.skip(0) =~= v@);
    if start == n {
        return None;
    }
    let mut acc: i64 = 0;
    let mut i: usize = start;
    while i < n
        invariant
            start <= i <= n,
            n == v@.len(),
            -0x8000_0000_0000 <= lo <= 0 <= hi <= 0x8000_0000_0000,
            body == v@.skip(start as int),
            signed == (v@.len() > 0 && (v@[0] == '+' || (v@[0] == '-' && lo < 0))),
            start == (if signed { 1int } else { 0int }),
            neg == (signed && v@[0] == '-'),
            all_digits(body.take(i - start)),
            acc == digits_value(body.take(i - start)),
            0 <= acc <= 0x8000_0000_0000,
        decreases n - i,
    {
        let c: char = v[i];
        let d: u32 = c as u32;
        assert(body[i - start] == c);
        if d < 48 || d > 57 {
            assert(!is_digit(body[i - start]));
            return None;
        }
        let ghost next = body.take(i - start + 1);
        proof {
            assert(next.drop_last() =~= body.take(i - start));
            assert(next.last() == c);
            assert forall|x: int| 0 <= x < next.len() implies is_digit(#[trigger] next[x]) by {
                if x < i - start {
                    assert(next[x] == body.take(i - start)[x]);
                }
            }
        }
        let wide: i64 = acc * 10 + (d - 48) as i64;
        assert(digits_value(next) == wide);
        if wide > 0x8000_0000_0000 {
            proof {
                assert(v@.skip(0) =~= v@);
                if all_digits(body) {
                    lemma_digits_grow(body, i - start + 1);
                }
            }
            return None;
        }
        acc = wide;
        i += 1;
    }
    assert(body.take(n - start) =~= body);
    let value: i64 = if neg {
        -acc
    } else {
        acc
    };
    if lo <= value && value <= hi {
        Some(value)
    } else {
        None
    }
}

/// The string that holds the given bytes, where they are valid UTF-8
/// (`String::from_utf8`): the characters they encode. Other bytes give `None`.
#[verifier::external_body]
pub(crate) fn utf8_string(bytes: Vec<u8>) -> (r: Option<String>)
    ensures
        vstd::utf8::valid_utf8(bytes@) ==> r.is_some() && r.unwrap()@ == vstd::utf8::decode_utf8(
            bytes@,
        ),
        !vstd::utf8::valid_utf8(bytes@) ==> r.is_none(),
{
    String::from_utf8(bytes).ok()
}

} // verus!
