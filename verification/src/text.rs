//! Character-level text helpers shared by the lexer, the diagnostics and the checker.
use vstd::prelude::*;
use vstd::string::*;

verus! {

/// The decimal digit character for `d`, which must lie in `0..10`.
pub open spec fn digit_char(d: nat) -> char {
    (d + 48) as char
}

/// The decimal spelling of a natural number, most significant digit first.
pub open spec fn decimal(n: nat) -> Seq<char>
    decreases n,
{
    if n < 10 {
        seq![digit_char(n)]
    } else {
        decimal(n / 10).push(digit_char(n % 10))
    }
}

/// The decimal spelling of an integer, with a leading `-` when it is negative.
pub open spec fn signed_decimal(n: int) -> Seq<char> {
    if n < 0 {
        seq!['-'] + decimal((-n) as nat)
    } else {
        decimal(n as nat)
    }
}

/// Different digits have different characters, and each is an ASCII digit.
pub proof fn lemma_digit_char(a: nat, b: nat)
    requires
        a < 10,
        b < 10,
    ensures
        digit_char(a) == digit_char(b) ==> a == b,
        '0' <= digit_char(a) <= '9',
{
    assert((digit_char(a) as int) == a + 48);
    assert((digit_char(b) as int) == b + 48);
}

/// A decimal spelling is not empty and holds only ASCII digits.
pub proof fn lemma_decimal_digits(n: nat)
    ensures
        decimal(n).len() >= 1,
        n >= 10 ==> decimal(n).len() >= 2,
        forall|i: int| 0 <= i < decimal(n).len() ==> '0' <= #[trigger] decimal(n)[i] <= '9',
    decreases n,
{
    if n < 10 {
        lemma_digit_char(n, n);
    } else {
        lemma_decimal_digits(n / 10);
        lemma_digit_char(n % 10, n % 10);
        let d = decimal(n);
        assert forall|i: int| 0 <= i < d.len() implies '0' <= #[trigger] d[i] <= '9' by {
            if i < d.len() - 1 {
                assert(d[i] == decimal(n / 10)[i]);
            }
        }
    }
}

/// Different numbers have different decimal spellings.
pub proof fn lemma_decimal_injective(a: nat, b: nat)
    ensures
        decimal(a) == decimal(b) ==> a == b,
    decreases a,
{
    lemma_decimal_digits(a);
    lemma_decimal_digits(b);
    if decimal(a) == decimal(b) {
        if a < 10 && b < 10 {
            lemma_digit_char(a, b);
            assert(decimal(a)[0] == digit_char(a));
            assert(decimal(b)[0] == digit_char(b));
            assert(a == b);
        } else if a >= 10 && b >= 10 {
            let da = decimal(a);
            let db = decimal(b);
            assert(da.last() == digit_char(a % 10));
            assert(db.last() == digit_char(b % 10));
            lemma_digit_char(a % 10, b % 10);
            assert(decimal(a / 10) =~= da.drop_last());
            assert(decimal(b / 10) =~= db.drop_last());
            lemma_decimal_injective(a / 10, b / 10);
            assert(a == 10 * (a / 10) + a % 10);
            assert(b == 10 * (b / 10) + b % 10);
            assert(a == b);
        } else if a < 10 {
            assert(decimal(a).len() == 1);
        } else {
            assert(decimal(b).len() == 1);
        }
    }
}

/// Two names `label.N` with different numbers differ, whatever their labels:
/// what follows the last `.` is the number's decimal spelling.
pub proof fn lemma_numbered_names_distinct(l1: Seq<char>, n1: nat, l2: Seq<char>, n2: nat)
    requires
        n1 != n2,
    ensures
        l1 + "."@ + decimal(n1) != l2 + "."@ + decimal(n2),
{
    reveal_strlit(".");
    let d1 = decimal(n1);
    let d2 = decimal(n2);
    let s1 = l1 + "."@ + d1;
    let s2 = l2 + "."@ + d2;
    lemma_decimal_digits(n1);
    lemma_decimal_digits(n2);
    lemma_decimal_injective(n1, n2);
    if s1 == s2 {
        if d1.len() == d2.len() {
            assert(d1 =~= s1.subrange(s1.len() - d1.len(), s1.len() as int));
            assert(d2 =~= s2.subrange(s2.len() - d2.len(), s2.len() as int));
        } else if d1.len() < d2.len() {
            let k = s1.len() - d1.len() - 1;
            assert(s1[k] == '.');
            assert(s2[k] == d2[k - (s2.len() - d2.len())]);
        } else {
            let k = s2.len() - d2.len() - 1;
            assert(s2[k] == '.');
            assert(s1[k] == d1[k - (s1.len() - d1.len())]);
        }
    }
}

/// Whether `c` is one of the ASCII digits `0`..`9`.
pub open spec fn is_ascii_digit_spec(c: char) -> bool {
    '0' <= c && c <= '9'
}

/// What `char::is_alphabetic` answers for a character (Unicode `Alphabetic`).
pub uninterp spec fn unicode_alphabetic(c: char) -> bool;

/// What `char::is_whitespace` answers for a character: the Unicode
/// `White_Space` set, U+0009..U+000D, U+0020, U+0085, U+00A0, U+1680,
/// U+2000..U+200A, U+2028, U+2029, U+202F, U+205F and U+3000.
pub open spec fn unicode_whitespace(c: char) -> bool {
    let n = c as int;
    ||| 0x9 <= n <= 0xD
    ||| n == 0x20
    ||| n == 0x85
    ||| n == 0xA0
    ||| n == 0x1680
    ||| 0x2000 <= n <= 0x200A
    ||| n == 0x2028
    ||| n == 0x2029
    ||| n == 0x202F
    ||| n == 0x205F
    ||| n == 0x3000
}

/// Whether every character of `s` is printable ASCII (space to `~`) other
/// than `quote` and the backslash, so that `{:?}` writes it unescaped.
pub open spec fn plain_printable(s: Seq<char>, quote: char) -> bool {
    forall|i: int|
        0 <= i < s.len() ==> ' ' <= #[trigger] s[i] && s[i] <= '~' && s[i] != quote && s[i] != '\\'
}

/// What the `{:?}` formatting of a `str` writes for the given characters.
pub uninterp spec fn debug_quoted(s: Seq<char>) -> Seq<char>;

/// What the `{:?}` formatting of a `char` writes for it.
pub uninterp spec fn debug_char(c: char) -> Seq<char>;

/// `String::push`: appends one character to the end of the string.
#[verifier::external_body]
pub(crate) fn push_char(s: &mut String, c: char)
    ensures
        final(s)@ == old(s)@.push(c),
{
    s.push(c);
}

/// `char::is_alphabetic`; its answer is named by `unicode_alphabetic`. On
/// ASCII it answers exactly for the letters `a`..`z` and `A`..`Z`.
#[verifier::external_body]
pub(crate) fn is_alphabetic(c: char) -> (b: bool)
    ensures
        b == unicode_alphabetic(c),
        (c as int) < 128 ==> (b <==> (('a' <= c && c <= 'z') || ('A' <= c && c <= 'Z'))),
{
    c.is_alphabetic()
}

/// `char::is_whitespace`: the Unicode `White_Space` set, listed by `unicode_whitespace`.
#[verifier::external_body]
pub(crate) fn is_whitespace(c: char) -> (b: bool)
    ensures
        b == unicode_whitespace(c),
{
    c.is_whitespace()
}

/// The `{:?}` spelling of a string (quoted and escaped), named by `debug_quoted`;
/// printable ASCII other than `"` and the backslash is written as it is, between `"`.
#[verifier::external_body]
pub(crate) fn quote(s: &str) -> (res: String)
    ensures
        res@ == debug_quoted(s@),
        plain_printable(s@, '"') ==> res@ == seq!['"'] + s@ + seq!['"'],
{
    format!("{:?}", s)
}

/// The `{:?}` spelling of a character (quoted and escaped), named by `debug_char`;
/// printable ASCII other than `'` and the backslash is written as it is, between `'`.
#[verifier::external_body]
pub(crate) fn quote_char(c: char) -> (res: String)
    ensures
        res@ == debug_char(c),
        plain_printable(seq![c], '\'') ==> res@ == seq!['\'', c, '\''],
{
    format!("{:?}", c)
}

/// Whether `c` is an ASCII digit.
pub fn is_ascii_digit(c: char) -> (b: bool)
    ensures
        b == is_ascii_digit_spec(c),
{
    '0' <= c && c <= '9'
}

/// A new string holding `s`.
pub fn owned(s: &str) -> (res: String)
    ensures
        res@ == s@,
{
    String::from_str(s)
}

/// The concatenation of two strings.
pub fn concat(a: &str, b: &str) -> (res: String)
    ensures
        res@ == a@ + b@,
{
    let mut r = String::from_str(a);
    r.append(b);
    r
}

/// The concatenation of three strings.
pub fn concat3(a: &str, b: &str, c: &str) -> (res: String)
    ensures
        res@ == a@ + b@ + c@,
{
    let mut r = String::from_str(a);
    r.append(b);
    r.append(c);
    r
}

/// The characters of `s`, one per element.
pub fn chars_of(s: &str) -> (v: Vec<char>)
    ensures
        v@ == s@,
{
    let n = s.unicode_len();
    let mut v: Vec<char> = Vec::new();
    let mut i: usize = 0;
    while i < n
        invariant
            n == s@.len(),
            i <= n,
            v@ == s@.subrange(0, i as int),
        decreases n - i,
    {
        let c = s.get_char(i);
        v.push(c);
        i = i + 1;
        assert(v@ =~= s@.subrange(0, i as int));
    }
    assert(v@ =~= s@);
    v
}

/// A string holding the characters of `v`.
pub fn string_of(v: &Vec<char>) -> (s: String)
    ensures
        s@ == v@,
{
    let mut s = String::new();
    let mut i: usize = 0;
    while i < v.len()
        invariant
            i <= v.len(),
            s@ == v@.subrange(0, i as int),
        decreases v.len() - i,
    {
        push_char(&mut s, v[i]);
        i = i + 1;
        assert(s@ =~= v@.subrange(0, i as int));
    }
    assert(s@ =~= v@);
    s
}

/// The concatenation of a sequence of strings.
pub open spec fn concat_all(parts: Seq<&str>) -> Seq<char>
    decreases parts.len(),
{
    if parts.len() == 0 {
        Seq::empty()
    } else {
        concat_all(parts.drop_last()) + parts.last()@
    }
}

/// Four strings concatenated.
pub proof fn lemma_concat_all_four(parts: Seq<&str>)
    requires
        parts.len() == 4,
    ensures
        concat_all(parts) == parts[0]@ + parts[1]@ + parts[2]@ + parts[3]@,
{
    lemma_concat_all_triple(parts.drop_last());
    assert(parts.drop_last()[0] == parts[0] && parts.drop_last()[1] == parts[1] && parts.drop_last()[2] == parts[2]);
}

/// Six strings concatenated.
pub proof fn lemma_concat_all_six(parts: Seq<&str>)
    requires
        parts.len() == 6,
    ensures
        concat_all(parts) == parts[0]@ + parts[1]@ + parts[2]@ + parts[3]@ + parts[4]@ + parts[5]@,
{
    let five = parts.drop_last();
    lemma_concat_all_four(five.drop_last());
    assert(five.drop_last()[0] == parts[0] && five.drop_last()[1] == parts[1] && five.drop_last()[2] == parts[2]
        && five.drop_last()[3] == parts[3]);
    assert(five.last() == parts[4]);
    assert(concat_all(five) == concat_all(five.drop_last()) + five.last()@);
    assert(concat_all(parts) == concat_all(five) + parts.last()@);
    assert(concat_all(parts) =~= parts[0]@ + parts[1]@ + parts[2]@ + parts[3]@ + parts[4]@ + parts[5]@);
}

/// Five strings concatenated.
pub proof fn lemma_concat_all_five(parts: Seq<&str>)
    requires
        parts.len() == 5,
    ensures
        concat_all(parts) == parts[0]@ + parts[1]@ + parts[2]@ + parts[3]@ + parts[4]@,
{
    let four = parts.drop_last();
    lemma_concat_all_four(four);
    assert(four[0] == parts[0] && four[1] == parts[1] && four[2] == parts[2] && four[3] == parts[3]);
    assert(concat_all(parts) == concat_all(four) + parts.last()@);
    assert(concat_all(parts) =~= parts[0]@ + parts[1]@ + parts[2]@ + parts[3]@ + parts[4]@);
}

/// Seven strings concatenated.
pub proof fn lemma_concat_all_seven(parts: Seq<&str>)
    requires
        parts.len() == 7,
    ensures
        concat_all(parts) == parts[0]@ + parts[1]@ + parts[2]@ + parts[3]@ + parts[4]@ + parts[5]@ + parts[6]@,
{
    let six = parts.drop_last();
    lemma_concat_all_six(six);
    assert(six[0] == parts[0] && six[1] == parts[1] && six[2] == parts[2] && six[3] == parts[3] && six[4]
        == parts[4] && six[5] == parts[5]);
    assert(concat_all(parts) == concat_all(six) + parts.last()@);
    assert(concat_all(parts) =~= parts[0]@ + parts[1]@ + parts[2]@ + parts[3]@ + parts[4]@ + parts[5]@
        + parts[6]@);
}

/// Concatenating two runs of strings is concatenating their concatenations.
pub proof fn lemma_concat_all_append(a: Seq<&str>, b: Seq<&str>)
    ensures
        concat_all(a + b) == concat_all(a) + concat_all(b),
    decreases b.len(),
{
    if b.len() == 0 {
        assert(a + b =~= a);
        assert(concat_all(a) + concat_all(b) =~= concat_all(a));
    } else {
        lemma_concat_all_append(a, b.drop_last());
        assert((a + b).drop_last() =~= a + b.drop_last());
        assert((a + b).last() == b.last());
        assert(concat_all(a + b) =~= concat_all(a) + concat_all(b));
    }
}

/// Eleven strings concatenated.
pub proof fn lemma_concat_all_eleven(parts: Seq<&str>)
    requires
        parts.len() == 11,
    ensures
        concat_all(parts) == parts[0]@ + parts[1]@ + parts[2]@ + parts[3]@ + parts[4]@ + parts[5]@ + parts[6]@
            + parts[7]@ + parts[8]@ + parts[9]@ + parts[10]@,
{
    let a = parts.subrange(0, 7);
    let b = parts.subrange(7, 11);
    assert(parts =~= a + b);
    lemma_concat_all_append(a, b);
    lemma_concat_all_seven(a);
    lemma_concat_all_four(b);
    assert(concat_all(parts) =~= parts[0]@ + parts[1]@ + parts[2]@ + parts[3]@ + parts[4]@ + parts[5]@
        + parts[6]@ + parts[7]@ + parts[8]@ + parts[9]@ + parts[10]@);
}

/// Nine strings concatenated.
pub proof fn lemma_concat_all_nine(parts: Seq<&str>)
    requires
        parts.len() == 9,
    ensures
        concat_all(parts) == parts[0]@ + parts[1]@ + parts[2]@ + parts[3]@ + parts[4]@ + parts[5]@ + parts[6]@
            + parts[7]@ + parts[8]@,
{
    let a = parts.subrange(0, 7);
    let b = parts.subrange(7, 9);
    assert(parts =~= a + b);
    lemma_concat_all_append(a, b);
    lemma_concat_all_seven(a);
    lemma_concat_all_pair(b);
    assert(concat_all(parts) =~= parts[0]@ + parts[1]@ + parts[2]@ + parts[3]@ + parts[4]@ + parts[5]@
        + parts[6]@ + parts[7]@ + parts[8]@);
}

/// Three strings concatenated.
pub proof fn lemma_concat_all_triple(parts: Seq<&str>)
    requires
        parts.len() == 3,
    ensures
        concat_all(parts) == parts[0]@ + parts[1]@ + parts[2]@,
{
    reveal_with_fuel(concat_all, 4);
    assert(parts.drop_last().drop_last().drop_last() =~= Seq::<&str>::empty());
    assert(parts.drop_last().drop_last().last() == parts[0]);
    assert(parts.drop_last().last() == parts[1]);
    assert(concat_all(parts) =~= parts[0]@ + parts[1]@ + parts[2]@);
}

/// Two strings concatenated.
pub proof fn lemma_concat_all_pair(parts: Seq<&str>)
    requires
        parts.len() == 2,
    ensures
        concat_all(parts) == parts[0]@ + parts[1]@,
{
    reveal_with_fuel(concat_all, 3);
    assert(parts.drop_last().drop_last() =~= Seq::<&str>::empty());
    assert(parts.drop_last().last() == parts[0]);
    assert(concat_all(parts) =~= parts[0]@ + parts[1]@);
}

/// The concatenation of the given strings, in order.
pub fn cat(parts: Vec<&str>) -> (s: String)
    ensures
        s@ == concat_all(parts@),
{
    let mut s = String::new();
    let mut i: usize = 0;
    while i < parts.len()
        invariant
            i <= parts@.len(),
            s@ == concat_all(parts@.subrange(0, i as int)),
        decreases parts.len() - i,
    {
        s.append(parts[i]);
        i = i + 1;
        assert(parts@.subrange(0, i as int).drop_last() =~= parts@.subrange(0, i - 1));
    }
    assert(parts@.subrange(0, parts@.len() as int) =~= parts@);
    s
}

/// A string holding the characters `v[a..b]`.
pub fn string_of_range(v: &Vec<char>, a: usize, b: usize) -> (s: String)
    requires
        a <= b <= v@.len(),
    ensures
        s@ == v@.subrange(a as int, b as int),
{
    let mut s = String::new();
    let mut i: usize = a;
    while i < b
        invariant
            a <= i <= b,
            b <= v@.len(),
            s@ == v@.subrange(a as int, i as int),
        decreases b - i,
    {
        push_char(&mut s, v[i]);
        i = i + 1;
        assert(s@ =~= v@.subrange(a as int, i as int));
    }
    s
}

/// A string holding the single character `c`.
pub fn string_of_char(c: char) -> (s: String)
    ensures
        s@ == seq![c],
{
    let mut s = String::new();
    push_char(&mut s, c);
    assert(s@ =~= seq![c]);
    s
}


/// The decimal spelling of `n`.
pub fn u64_decimal(n: u64) -> (s: String)
    ensures
        s@ == decimal(n as nat),
{
    let mut digits: Vec<char> = Vec::new();
    let mut m: u64 = n;
    // digits holds the low-order digits of n, least significant first
    while m >= 10
        invariant
            decimal(n as nat) == decimal(m as nat) + digits@.reverse(),
        decreases m,
    {
        let d = (m % 10) as u32;
        let c = char_of_digit(d);
        proof {
            assert(decimal(m as nat) == decimal((m / 10) as nat).push(digit_char((m % 10) as nat)));
            assert(digits@.push(c).reverse() =~= seq![c] + digits@.reverse());
        }
        digits.push(c);
        m = m / 10;
    }
    let c = char_of_digit(m as u32);
    digits.push(c);
    proof {
        assert(digits@.reverse() =~= seq![c] + digits@.drop_last().reverse());
    }
    let mut s = String::new();
    let mut i: usize = digits.len();
    while i > 0
        invariant
            i <= digits.len(),
            s@ == digits@.subrange(i as int, digits.len() as int).reverse(),
        decreases i,
    {
        i = i - 1;
        push_char(&mut s, digits[i]);
        assert(s@ =~= digits@.subrange(i as int, digits.len() as int).reverse());
    }
    assert(digits@.subrange(0, digits.len() as int) =~= digits@);
    s
}

fn char_of_digit(d: u32) -> (c: char)
    requires
        d < 10,
    ensures
        c == digit_char(d as nat),
{
    if d == 0 { '0' }
    else if d == 1 { '1' }
    else if d == 2 { '2' }
    else if d == 3 { '3' }
    else if d == 4 { '4' }
    else if d == 5 { '5' }
    else if d == 6 { '6' }
    else if d == 7 { '7' }
    else if d == 8 { '8' }
    else { '9' }
}

/// The decimal spelling of `n`.
pub fn usize_decimal(n: usize) -> (s: String)
    ensures
        s@ == decimal(n as nat),
{
    u64_decimal(n as u64)
}

/// The decimal spelling of `n`, with a leading `-` when it is negative.
pub fn i64_decimal(n: i64) -> (s: String)
    ensures
        s@ == signed_decimal(n as int),
{
    if n < 0 {
        let m: u64 = if n == i64::MIN {
            9223372036854775808u64
        } else {
            (-n) as u64
        };
        let digits = u64_decimal(m);
        let mut r = string_of_char('-');
        r.append(digits.as_str());
        r
    } else {
        u64_decimal(n as u64)
    }
}

/// Whether `s` begins with `prefix`.
pub fn starts_with(s: &str, prefix: &str) -> (b: bool)
    ensures
        b == (prefix@.len() <= s@.len() && s@.subrange(0, prefix@.len() as int) == prefix@),
{
    let n = s.unicode_len();
    let m = prefix.unicode_len();
    if m > n {
        return false;
    }
    let mut i: usize = 0;
    while i < m
        invariant
            n == s@.len(),
            m == prefix@.len(),
            m <= n,
            i <= m,
            s@.subrange(0, i as int) == prefix@.subrange(0, i as int),
        decreases m - i,
    {
        if s.get_char(i) != prefix.get_char(i) {
            assert(s@.subrange(0, m as int)[i as int] != prefix@[i as int]);
            return false;
        }
        i = i + 1;
        assert(s@.subrange(0, i as int) =~= prefix@.subrange(0, i as int));
    }
    assert(prefix@.subrange(0, m as int) =~= prefix@);
    true
}

/// Whether `s` ends with `suffix`.
pub fn ends_with(s: &str, suffix: &str) -> (b: bool)
    ensures
        b == (suffix@.len() <= s@.len() && s@.subrange(s@.len() - suffix@.len(), s@.len() as int)
            == suffix@),
{
    let n = s.unicode_len();
    let m = suffix.unicode_len();
    if m > n {
        return false;
    }
    let off = n - m;
    let mut i: usize = 0;
    while i < m
        invariant
            n == s@.len(),
            m == suffix@.len(),
            off == n - m,
            i <= m,
            s@.subrange(off as int, off + i) == suffix@.subrange(0, i as int),
        decreases m - i,
    {
        if s.get_char(off + i) != suffix.get_char(i) {
            assert(s@.subrange(off as int, n as int)[i as int] != suffix@[i as int]);
            return false;
        }
        i = i + 1;
        assert(s@.subrange(off as int, off + i) =~= suffix@.subrange(0, i as int));
    }
    assert(suffix@.subrange(0, m as int) =~= suffix@);
    true
}

/// Whether two strings hold the same characters.
pub fn str_eq(a: &str, b: &str) -> (r: bool)
    ensures
        r == (a@ == b@),
{
    let n = a.unicode_len();
    let m = b.unicode_len();
    if n != m {
        return false;
    }
    let mut i: usize = 0;
    while i < n
        invariant
            n == a@.len(),
            m == b@.len(),
            n == m,
            i <= n,
            a@.subrange(0, i as int) == b@.subrange(0, i as int),
        decreases n - i,
    {
        if a.get_char(i) != b.get_char(i) {
            return false;
        }
        i = i + 1;
        assert(a@.subrange(0, i as int) =~= b@.subrange(0, i as int));
    }
    assert(a@.subrange(0, n as int) =~= a@);
    assert(b@.subrange(0, n as int) =~= b@);
    true
}

/// Whether `a` sorts before or with `b`: characters compared in order by
/// code point, a proper prefix first.
pub open spec fn chars_le(a: Seq<char>, b: Seq<char>) -> bool
    decreases a.len(),
{
    if a.len() == 0 {
        true
    } else if b.len() == 0 {
        false
    } else if a[0] != b[0] {
        (a[0] as int) < (b[0] as int)
    } else {
        chars_le(a.drop_first(), b.drop_first())
    }
}

/// Whether the names are in ascending order.
pub open spec fn names_sorted(v: Seq<String>) -> bool {
    forall|i: int, j: int| 0 <= i < j < v.len() ==> chars_le(#[trigger] v[i]@, #[trigger] v[j]@)
}

/// Any two names are ordered one way or the other.
pub proof fn lemma_chars_le_total(a: Seq<char>, b: Seq<char>)
    ensures
        chars_le(a, b) || chars_le(b, a),
    decreases a.len(),
{
    if a.len() > 0 && b.len() > 0 {
        if a[0] == b[0] {
            lemma_chars_le_total(a.drop_first(), b.drop_first());
        }
    }
}

/// The order on names is transitive.
pub proof fn lemma_chars_le_transitive(a: Seq<char>, b: Seq<char>, c: Seq<char>)
    requires
        chars_le(a, b),
        chars_le(b, c),
    ensures
        chars_le(a, c),
    decreases a.len(),
{
    if a.len() > 0 && b.len() > 0 && c.len() > 0 && a[0] == b[0] && b[0] == c[0] {
        lemma_chars_le_transitive(a.drop_first(), b.drop_first(), c.drop_first());
    }
}

proof fn lemma_chars_le_skip(a: Seq<char>, b: Seq<char>, i: int)
    requires
        0 <= i <= a.len(),
        i <= b.len(),
        a.subrange(0, i) == b.subrange(0, i),
    ensures
        chars_le(a, b) == chars_le(a.subrange(i, a.len() as int), b.subrange(i, b.len() as int)),
    decreases i,
{
    if i > 0 {
        assert(a[0] == a.subrange(0, i)[0]);
        assert(b[0] == b.subrange(0, i)[0]);
        assert(a.drop_first().subrange(0, i - 1) =~= a.subrange(0, i).drop_first());
        assert(b.drop_first().subrange(0, i - 1) =~= b.subrange(0, i).drop_first());
        lemma_chars_le_skip(a.drop_first(), b.drop_first(), i - 1);
        assert(a.drop_first().subrange(i - 1, a.len() - 1) =~= a.subrange(i, a.len() as int));
        assert(b.drop_first().subrange(i - 1, b.len() - 1) =~= b.subrange(i, b.len() as int));
    } else {
        assert(a.subrange(0, a.len() as int) =~= a);
        assert(b.subrange(0, b.len() as int) =~= b);
    }
}

/// Whether `a` sorts before or with `b`, comparing characters in order.
pub fn name_le(a: &str, b: &str) -> (r: bool)
    ensures
        r == chars_le(a@, b@),
{
    let x = chars_of(a);
    let y = chars_of(b);
    let mut i: usize = 0;
    while i < x.len() && i < y.len()
        invariant
            i <= x@.len(),
            i <= y@.len(),
            x@ == a@,
            y@ == b@,
            x@.subrange(0, i as int) == y@.subrange(0, i as int),
        decreases x.len() - i,
    {
        if x[i] != y[i] {
            proof {
                lemma_chars_le_skip(x@, y@, i as int);
                let xs = x@.subrange(i as int, x@.len() as int);
                let ys = y@.subrange(i as int, y@.len() as int);
                assert(xs[0] == x@[i as int] && ys[0] == y@[i as int]);
            }
            return x[i] < y[i];
        }
        assert(x@.subrange(0, i + 1) =~= x@.subrange(0, i as int).push(x@[i as int]));
        assert(y@.subrange(0, i + 1) =~= y@.subrange(0, i as int).push(y@[i as int]));
        i = i + 1;
    }
    proof {
        lemma_chars_le_skip(x@, y@, i as int);
        let xs = x@.subrange(i as int, x@.len() as int);
        let ys = y@.subrange(i as int, y@.len() as int);
        assert(xs.len() == 0 || ys.len() == 0);
    }
    x.len() <= y.len()
}

/// The characters of each name.
pub open spec fn name_views(s: Seq<String>) -> Seq<Seq<char>> {
    s.map_values(|x: String| x@)
}

/// Exchanging two neighbouring names keeps which names there are, and keeps
/// them distinct when they were.
proof fn lemma_swap_keeps_names(before: Seq<String>, after: Seq<String>, j: int)
    requires
        1 <= j < before.len(),
        after == before.update(j - 1, before[j]).update(j, before[j - 1]),
    ensures
        forall|k: Seq<char>| name_views(after).contains(k) <==> name_views(before).contains(k),
        name_views(before).no_duplicates() ==> name_views(after).no_duplicates(),
{
    let vb = name_views(before);
    let va = name_views(after);
    let swap = |i: int| if i == j { j - 1 } else if i == j - 1 { j } else { i };
    assert forall|i: int| 0 <= i < after.len() implies #[trigger] va[i] == vb[swap(i)] by {}
    assert forall|k: Seq<char>| va.contains(k) <==> vb.contains(k) by {
        if va.contains(k) {
            let i = choose|i: int| 0 <= i < va.len() && va[i] == k;
            assert(vb[swap(i)] == k);
        }
        if vb.contains(k) {
            let i = choose|i: int| 0 <= i < vb.len() && vb[i] == k;
            assert(va[swap(i)] == vb[i]);
        }
    }
    if vb.no_duplicates() {
        assert forall|a: int, b: int| 0 <= a < va.len() && 0 <= b < va.len() && a != b implies va[a]
            != va[b] by {
            assert(va[a] == vb[swap(a)] && va[b] == vb[swap(b)]);
        }
    }
}

/// Sorts names in ascending order, keeping every name.
pub fn sort_names(v: &mut Vec<String>)
    ensures
        final(v)@.len() == old(v)@.len(),
        final(v)@.to_multiset() == old(v)@.to_multiset(),
        names_sorted(final(v)@),
        forall|k: Seq<char>| name_views(final(v)@).contains(k) <==> name_views(old(v)@).contains(k),
        name_views(old(v)@).no_duplicates() ==> name_views(final(v)@).no_duplicates(),
{
    let n = v.len();
    if n == 0 {
        return;
    }
    let mut i: usize = 1;
    while i < n
        invariant
            n == v@.len(),
            1 <= i <= n,
            v@.to_multiset() == old(v)@.to_multiset(),
            forall|k: Seq<char>| name_views(v@).contains(k) <==> name_views(old(v)@).contains(k),
            name_views(old(v)@).no_duplicates() ==> name_views(v@).no_duplicates(),
            forall|a: int, b: int| 0 <= a < b < i ==> chars_le(#[trigger] v@[a]@, #[trigger] v@[b]@),
        decreases n - i,
    {
        let mut j: usize = i;
        while j > 0
            invariant_except_break
                j < i ==> forall|a: int| 0 <= a < j ==> chars_le(#[trigger] v@[a]@, v@[(j + 1) as int]@),
            invariant
                n == v@.len(),
                1 <= i < n,
                j <= i,
                v@.to_multiset() == old(v)@.to_multiset(),
                forall|k: Seq<char>| name_views(v@).contains(k) <==> name_views(old(v)@).contains(k),
                name_views(old(v)@).no_duplicates() ==> name_views(v@).no_duplicates(),
                forall|a: int, b: int|
                    0 <= a < b <= i && a != j && b != j ==> chars_le(#[trigger] v@[a]@, #[trigger] v@[b]@),
                forall|b: int| j < b <= i ==> chars_le(v@[j as int]@, #[trigger] v@[b]@),
            ensures
                forall|a: int, b: int| 0 <= a < b <= i ==> chars_le(#[trigger] v@[a]@, #[trigger] v@[b]@),
            decreases j,
        {
            if name_le(v[j - 1].as_str(), v[j].as_str()) {
                proof {
                    assert forall|a: int, b: int| 0 <= a < b <= i implies chars_le(
                        #[trigger] v@[a]@,
                        #[trigger] v@[b]@,
                    ) by {
                        if b == j && a < j - 1 {
                            lemma_chars_le_transitive(v@[a]@, v@[j - 1]@, v@[b]@);
                        } else if a == j && b > j {
                        } else if a == j - 1 && b > j {
                            lemma_chars_le_transitive(v@[a]@, v@[j as int]@, v@[b]@);
                        }
                    }
                }
                break;
            }
            proof {
                lemma_chars_le_total(v@[j - 1]@, v@[j as int]@);
            }
            let ghost before = v@;
            let x = v[j - 1].clone();
            let y = v[j].clone();
            v.set(j - 1, y);
            v.set(j, x);
            proof {
                assert(v@ == before.update(j - 1, before[j as int]).update(j as int, before[j - 1]));
                lemma_swap_keeps_names(before, v@, j as int);
                assert(v@.to_multiset() == before.to_multiset()) by {
                    broadcast use vstd::multiset::group_multiset_axioms;

                    let mid = before.update(j - 1, before[j as int]);
                    vstd::seq_lib::to_multiset_contains(before, before[j - 1]);
                    vstd::seq_lib::to_multiset_update(before, j - 1, before[j as int]);
                    assert(mid[j as int] == before[j as int]);
                    vstd::seq_lib::to_multiset_update(mid, j as int, before[j - 1]);
                    assert(v@.to_multiset() =~= before.to_multiset());
                }
                assert forall|b: int| j - 1 < b <= i implies chars_le(
                    v@[j - 1]@,
                    #[trigger] v@[b]@,
                ) by {
                    if b > j {
                        assert(chars_le(before[j as int]@, before[b]@));
                    }
                }
                assert forall|a: int, b: int|
                    0 <= a < b <= i && a != j - 1 && b != j - 1 implies chars_le(
                    #[trigger] v@[a]@,
                    #[trigger] v@[b]@,
                ) by {
                    if a == j as int {
                        if b > j {
                            assert(chars_le(before[j - 1]@, before[b]@));
                        }
                    } else if b == j as int {
                        assert(chars_le(before[a]@, before[j - 1]@));
                    }
                }
                if j - 1 < i {
                    assert forall|a: int| 0 <= a < j - 1 implies chars_le(
                        #[trigger] v@[a]@,
                        v@[j as int]@,
                    ) by {
                        assert(chars_le(before[a]@, before[j - 1]@));
                    }
                }
            }
            j = j - 1;
        }
        i = i + 1;
    }
}

/// `before` is a prefix of `after`.
pub open spec fn keeps_prefix<T>(before: Seq<T>, after: Seq<T>) -> bool {
    before.len() <= after.len() && after.subrange(0, before.len() as int) == before
}

/// A prefix of a prefix is a prefix.
pub broadcast proof fn lemma_keeps_prefix_trans<T>(a: Seq<T>, b: Seq<T>, c: Seq<T>)
    requires
        #[trigger] keeps_prefix(a, b),
        #[trigger] keeps_prefix(b, c),
    ensures
        keeps_prefix(a, c),
{
    assert(c.subrange(0, a.len() as int) =~= b.subrange(0, a.len() as int));
}

/// Every sequence is a prefix of itself.
pub broadcast proof fn lemma_keeps_prefix_refl<T>(a: Seq<T>)
    ensures
        #[trigger] keeps_prefix(a, a),
{
    assert(a.subrange(0, a.len() as int) =~= a);
}

} // verus!
