//! Text primitives with exact specifications: equality, suffixes, trimming,
//! single-character replacement and decimal rendering.

use vstd::prelude::*;

verus! {

/// The ten decimal digit characters.
pub open spec fn digit_char(d: nat) -> char {
    seq!['0', '1', '2', '3', '4', '5', '6', '7', '8', '9'][d as int]
}

/// Decimal representation of `n`, most significant digit first, no padding.
pub open spec fn decimal(n: nat) -> Seq<char>
    decreases n,
{
    if n < 10 {
        seq![digit_char(n)]
    } else {
        decimal(n / 10).push(digit_char(n % 10))
    }
}

/// Decimal representation of `n`, left-padded with `'0'` to at least `width` characters.
pub open spec fn zero_padded(n: nat, width: nat) -> Seq<char> {
    let d = decimal(n);
    if d.len() < width {
        Seq::new((width - d.len()) as nat, |i: int| '0') + d
    } else {
        d
    }
}

/// `suffix` is a suffix of `s`.
pub open spec fn has_suffix(s: Seq<char>, suffix: Seq<char>) -> bool {
    suffix.len() <= s.len() && s.subrange(s.len() - suffix.len(), s.len() as int) == suffix
}

/// `s` with every trailing occurrence of a non-empty `pat` removed, repeatedly.
pub open spec fn strip_suffix_all(s: Seq<char>, pat: Seq<char>) -> Seq<char>
    decreases s.len(),
{
    if pat.len() > 0 && has_suffix(s, pat) {
        strip_suffix_all(s.subrange(0, s.len() - pat.len()), pat)
    } else {
        s
    }
}

/// Characters with the Unicode `White_Space` property.
pub open spec fn is_white_space(c: char) -> bool {
    ||| c == '\t'
    ||| c == '\n'
    ||| c == '\u{0B}'
    ||| c == '\u{0C}'
    ||| c == '\r'
    ||| c == ' '
    ||| c == '\u{85}'
    ||| c == '\u{A0}'
    ||| c == '\u{1680}'
    ||| ('\u{2000}' <= c && c <= '\u{200A}')
    ||| c == '\u{2028}'
    ||| c == '\u{2029}'
    ||| c == '\u{202F}'
    ||| c == '\u{205F}'
    ||| c == '\u{3000}'
}

/// `s` without its leading white space.
pub open spec fn trim_start(s: Seq<char>) -> Seq<char>
    decreases s.len(),
{
    if s.len() > 0 && is_white_space(s[0]) {
        trim_start(s.drop_first())
    } else {
        s
    }
}

/// `s` without its trailing white space.
pub open spec fn trim_end(s: Seq<char>) -> Seq<char>
    decreases s.len(),
{
    if s.len() > 0 && is_white_space(s.last()) {
        trim_end(s.drop_last())
    } else {
        s
    }
}

/// `s` without leading and trailing white space.
pub open spec fn trimmed(s: Seq<char>) -> Seq<char> {
    trim_end(trim_start(s))
}

/// The characters of `s` before its first line feed.
pub open spec fn first_line(s: Seq<char>) -> Seq<char>
    decreases s.len(),
{
    if s.len() == 0 || s[0] == '\n' {
        Seq::empty()
    } else {
        seq![s[0]] + first_line(s.drop_first())
    }
}

/// `s` with every occurrence of `from` replaced by `to`.
pub open spec fn replace_char(s: Seq<char>, from: char, to: Seq<char>) -> Seq<char>
    decreases s.len(),
{
    if s.len() == 0 {
        Seq::empty()
    } else {
        replace_char(s.drop_last(), from, to) + (if s.last() == from {
            to
        } else {
            seq![s.last()]
        })
    }
}

/// Character-wise equality of two string slices.
pub fn str_eq(a: &str, b: &str) -> (res: bool)
    ensures
        res == (a@ == b@),
{
    let n = a.unicode_len();
    if n != b.unicode_len() {
        return false;
    }
    let mut i: usize = 0;
    while i < n
        invariant
            n == a@.len(),
            n == b@.len(),
            i <= n,
            forall|j: int| 0 <= j < i ==> a@[j] == b@[j],
        decreases n - i,
    {
        if a.get_char(i) != b.get_char(i) {
            return false;
        }
        i = i + 1;
    }
    assert(a@ =~= b@);
    true
}

/// The single-character string holding decimal digit `d`.
fn digit_str(d: u64) -> (s: &'static str)
    requires
        d < 10,
    ensures
        s@ == seq![digit_char(d as nat)],
{
    if d == 0 {
        proof { reveal_strlit("0"); }
        "0"
    } else if d == 1 {
        proof { reveal_strlit("1"); }
        "1"
    } else if d == 2 {
        proof { reveal_strlit("2"); }
        "2"
    } else if d == 3 {
        proof { reveal_strlit("3"); }
        "3"
    } else if d == 4 {
        proof { reveal_strlit("4"); }
        "4"
    } else if d == 5 {
        proof { reveal_strlit("5"); }
        "5"
    } else if d == 6 {
        proof { reveal_strlit("6"); }
        "6"
    } else if d == 7 {
        proof { reveal_strlit("7"); }
        "7"
    } else if d == 8 {
        proof { reveal_strlit("8"); }
        "8"
    } else {
        proof { reveal_strlit("9"); }
        "9"
    }
}

/// Appends the decimal representation of `n` to `out`.
pub fn append_decimal(out: &mut String, n: u64)
    ensures
        final(out)@ == old(out)@ + decimal(n as nat),
    decreases n,
{
    if n >= 10 {
        append_decimal(out, n / 10);
    }
    out.append(digit_str(n % 10));
    assert(decimal(n as nat) == if n < 10 {
        seq![digit_char(n as nat)]
    } else {
        decimal((n / 10) as nat).push(digit_char((n % 10) as nat))
    });
}

/// Number of decimal digits of `n`.
pub fn decimal_len(n: u64) -> (len: u64)
    ensures
        len == decimal(n as nat).len(),
    decreases n,
{
    if n < 10 {
        1
    } else {
        let k = decimal_len(n / 10);
        proof { lemma_decimal_len_bound((n / 10) as nat); }
        k + 1
    }
}

/// A decimal representation is never longer than the value itself plus one.
pub proof fn lemma_decimal_len_bound(n: nat)
    ensures
        decimal(n).len() <= n + 1,
        decimal(n).len() >= 1,
    decreases n,
{
    if n >= 10 {
        lemma_decimal_len_bound(n / 10);
    }
}

/// Appends `n` in decimal, left-padded with zeros to `width` characters.
pub fn append_zero_padded(out: &mut String, n: u64, width: u64)
    ensures
        final(out)@ == old(out)@ + zero_padded(n as nat, width as nat),
{
    let len = decimal_len(n);
    let ghost start = out@;
    if len < width {
        let mut k: u64 = 0;
        while k < width - len
            invariant
                len < width,
                k <= width - len,
                out@ == start + Seq::new(k as nat, |i: int| '0'),
            decreases width - len - k,
        {
            proof { reveal_strlit("0"); }
            out.append("0");
            k = k + 1;
            assert(out@ =~= start + Seq::new(k as nat, |i: int| '0'));
        }
    }
    append_decimal(out, n);
    assert(out@ =~= start + zero_padded(n as nat, width as nat));
}


/// `a` sorts strictly before `b`, comparing characters by code point: at
/// the first position where they differ `a` has the smaller character, or
/// `a` is a proper prefix of `b`.
pub open spec fn text_before(a: Seq<char>, b: Seq<char>) -> bool {
    ||| exists|i: int|
        0 <= i < a.len() && i < b.len() && #[trigger] a.subrange(0, i) == b.subrange(0, i) && (a[i] as u32)
            < (b[i] as u32)
    ||| a.len() < b.len() && a == b.subrange(0, a.len() as int)
}

/// `10` to the power `w`.
pub open spec fn pow10(w: nat) -> nat
    decreases w,
{
    if w == 0 { 1 } else { 10 * pow10((w - 1) as nat) }
}

/// Two texts of equal length keep their order whatever follows each.
pub proof fn lemma_before_then_any(a1: Seq<char>, a2: Seq<char>, r1: Seq<char>, r2: Seq<char>)
    requires
        text_before(a1, a2),
        a1.len() == a2.len(),
    ensures
        text_before(a1 + r1, a2 + r2),
{
    let i = choose|i: int|
        0 <= i < a1.len() && i < a2.len() && #[trigger] a1.subrange(0, i) == a2.subrange(0, i) && (a1[i] as u32)
            < (a2[i] as u32);
    assert((a1 + r1).subrange(0, i) =~= a1.subrange(0, i));
    assert((a2 + r2).subrange(0, i) =~= a2.subrange(0, i));
    assert((a1 + r1)[i] == a1[i]);
    assert((a2 + r2)[i] == a2[i]);
}

/// A common prefix keeps the order of what follows it.
pub proof fn lemma_prefix_keeps_before(p: Seq<char>, x: Seq<char>, y: Seq<char>)
    requires
        text_before(x, y),
    ensures
        text_before(p + x, p + y),
{
    if exists|i: int|
        0 <= i < x.len() && i < y.len() && #[trigger] x.subrange(0, i) == y.subrange(0, i) && (x[i] as u32)
            < (y[i] as u32) {
        let i = choose|i: int|
            0 <= i < x.len() && i < y.len() && #[trigger] x.subrange(0, i) == y.subrange(0, i) && (x[i] as u32)
                < (y[i] as u32);
        let j = p.len() + i;
        assert((p + x).subrange(0, j) =~= p + x.subrange(0, i));
        assert((p + y).subrange(0, j) =~= p + y.subrange(0, i));
        assert((p + x)[j] == x[i]);
        assert((p + y)[j] == y[i]);
    } else {
        assert((p + x) =~= (p + y).subrange(0, (p + x).len() as int));
    }
}

proof fn lemma_digit_code(d: nat)
    requires
        d < 10,
    ensures
        digit_char(d) as u32 == 48 + d,
{
    let s = seq!['0', '1', '2', '3', '4', '5', '6', '7', '8', '9'];
    assert(s[0] == '0' && s[1] == '1' && s[2] == '2' && s[3] == '3' && s[4] == '4');
    assert(s[5] == '5' && s[6] == '6' && s[7] == '7' && s[8] == '8' && s[9] == '9');
}

/// A value below `10^w` has at most `w` decimal digits.
proof fn lemma_decimal_len_within(n: nat, w: nat)
    requires
        w >= 1,
        n < pow10(w),
    ensures
        decimal(n).len() <= w,
    decreases w,
{
    if n >= 10 {
        assert(pow10(w) == 10 * pow10((w - 1) as nat));
        if w == 1 {
            assert(pow10(0) == 1);
        } else {
            lemma_decimal_len_within(n / 10, (w - 1) as nat);
        }
    }
}

/// Padding to `w >= 2` digits is padding the value without its last digit
/// to `w - 1` digits, then that digit.
proof fn lemma_zero_padded_step(n: nat, w: nat)
    requires
        w >= 2,
        n < pow10(w),
    ensures
        zero_padded(n, w) == zero_padded(n / 10, (w - 1) as nat).push(digit_char(n % 10)),
{
    lemma_decimal_len_within(n, w);
    if n < 10 {
        assert(decimal(0) == seq![digit_char(0)]);
        assert(zero_padded(0, (w - 1) as nat) =~= Seq::new((w - 1) as nat, |i: int| '0'));
        assert(zero_padded(n, w) =~= zero_padded(n / 10, (w - 1) as nat).push(digit_char(n % 10)));
    } else {
        let d = decimal(n / 10);
        assert(decimal(n) == d.push(digit_char(n % 10)));
        if d.len() + 1 < w {
            assert(zero_padded(n, w) =~= zero_padded(n / 10, (w - 1) as nat).push(digit_char(n % 10)));
        } else {
            assert(zero_padded(n, w) == decimal(n));
            assert(zero_padded(n / 10, (w - 1) as nat) == d);
        }
    }
}

/// Padded to `w` digits, a value below `10^w` takes exactly `w` characters,
/// and a smaller value sorts before a larger one.
pub proof fn lemma_zero_padded_order(n1: nat, n2: nat, w: nat)
    requires
        w >= 1,
        n1 <= n2 < pow10(w),
    ensures
        zero_padded(n1, w).len() == w,
        zero_padded(n2, w).len() == w,
        n1 < n2 ==> text_before(zero_padded(n1, w), zero_padded(n2, w)),
    decreases w,
{
    if w == 1 {
        assert(pow10(1) == 10) by {
            assert(pow10(0) == 1);
        }
        assert(zero_padded(n1, w) == seq![digit_char(n1)]);
        assert(zero_padded(n2, w) == seq![digit_char(n2)]);
        if n1 < n2 {
            lemma_digit_code(n1);
            lemma_digit_code(n2);
            assert(zero_padded(n1, w).subrange(0, 0) =~= zero_padded(n2, w).subrange(0, 0));
        }
    } else {
        assert(pow10(w) == 10 * pow10((w - 1) as nat));
        lemma_zero_padded_step(n1, w);
        lemma_zero_padded_step(n2, w);
        lemma_zero_padded_order(n1 / 10, n2 / 10, (w - 1) as nat);
        let p1 = zero_padded(n1 / 10, (w - 1) as nat);
        let p2 = zero_padded(n2 / 10, (w - 1) as nat);
        let c1 = seq![digit_char(n1 % 10)];
        let c2 = seq![digit_char(n2 % 10)];
        assert(p1.push(digit_char(n1 % 10)) =~= p1 + c1);
        assert(p2.push(digit_char(n2 % 10)) =~= p2 + c2);
        if n1 < n2 {
            if n1 / 10 < n2 / 10 {
                lemma_before_then_any(p1, p2, c1, c2);
            } else {
                lemma_digit_code(n1 % 10);
                lemma_digit_code(n2 % 10);
                assert(c1.subrange(0, 0) =~= c2.subrange(0, 0));
                assert(text_before(c1, c2));
                lemma_prefix_keeps_before(p1, c1, c2);
            }
        }
    }
}

/// Executable counterpart of [`is_white_space`].
pub fn is_white_space_char(c: char) -> (res: bool)
    ensures
        res == is_white_space(c),
{
    c == '\t' || c == '\n' || c == '\u{0B}' || c == '\u{0C}' || c == '\r' || c == ' ' || c
        == '\u{85}' || c == '\u{A0}' || c == '\u{1680}' || ('\u{2000}' <= c && c <= '\u{200A}')
        || c == '\u{2028}' || c == '\u{2029}' || c == '\u{202F}' || c == '\u{205F}' || c
        == '\u{3000}'
}

proof fn lemma_trim_start_skip(s: Seq<char>, i: int)
    requires
        0 <= i <= s.len(),
        forall|k: int| 0 <= k < i ==> is_white_space(#[trigger] s[k]),
    ensures
        trim_start(s) == trim_start(s.subrange(i, s.len() as int)),
    decreases i,
{
    if i > 0 {
        lemma_trim_start_skip(s.drop_first(), i - 1);
        assert(s.drop_first().subrange(i - 1, s.len() - 1) =~= s.subrange(i, s.len() as int));
    } else {
        assert(s.subrange(0, s.len() as int) =~= s);
    }
}

proof fn lemma_trim_end_skip(s: Seq<char>, j: int)
    requires
        0 <= j <= s.len(),
        forall|k: int| j <= k < s.len() ==> is_white_space(#[trigger] s[k]),
    ensures
        trim_end(s) == trim_end(s.subrange(0, j)),
    decreases s.len() - j,
{
    if j < s.len() {
        lemma_trim_end_skip(s.drop_last(), j);
        assert(s.drop_last().subrange(0, j) =~= s.subrange(0, j));
    } else {
        assert(s.subrange(0, j) =~= s);
    }
}

/// `s` without leading and trailing white space.
pub fn trim(s: &str) -> (res: &str)
    ensures
        res@ == trimmed(s@),
{
    let n = s.unicode_len();
    let mut i: usize = 0;
    while i < n && is_white_space_char(s.get_char(i))
        invariant
            n == s@.len(),
            i <= n,
            forall|k: int| 0 <= k < i ==> is_white_space(#[trigger] s@[k]),
        decreases n - i,
    {
        i = i + 1;
    }
    let mut j: usize = n;
    while j > i && is_white_space_char(s.get_char(j - 1))
        invariant
            n == s@.len(),
            i <= j <= n,
            forall|k: int| j <= k < n ==> is_white_space(#[trigger] s@[k]),
        decreases j,
    {
        j = j - 1;
    }
    proof {
        lemma_trim_start_skip(s@, i as int);
        let rest = s@.subrange(i as int, n as int);
        assert(i == n || !is_white_space(rest[0]));
        assert(trim_start(rest) == rest);
        assert forall|k: int| (j - i) <= k < rest.len() implies is_white_space(#[trigger] rest[k]) by {
            assert(rest[k] == s@[k + i]);
        }
        lemma_trim_end_skip(rest, j - i);
        let kept = rest.subrange(0, j - i);
        assert(kept =~= s@.subrange(i as int, j as int));
        assert(j == i || !is_white_space(kept.last()));
        assert(trim_end(kept) == kept);
    }
    s.substring_char(i, j)
}

/// `suffix` ends `s`.
pub fn ends_with(s: &str, suffix: &str) -> (res: bool)
    ensures
        res == has_suffix(s@, suffix@),
{
    let n = s.unicode_len();
    let m = suffix.unicode_len();
    if m > n {
        return false;
    }
    let mut k: usize = 0;
    while k < m
        invariant
            n == s@.len(),
            m == suffix@.len(),
            m <= n,
            k <= m,
            forall|t: int| 0 <= t < k ==> s@[n - m + t] == suffix@[t],
        decreases m - k,
    {
        if s.get_char(n - m + k) != suffix.get_char(k) {
            assert(s@.subrange(n - m, n as int)[k as int] != suffix@[k as int]);
            return false;
        }
        k = k + 1;
    }
    assert(s@.subrange(n - m, n as int) =~= suffix@);
    true
}

/// `s` with all trailing repetitions of `pat` removed (nothing when `pat` is empty).
pub fn trim_end_matches<'a>(s: &'a str, pat: &str) -> (res: &'a str)
    ensures
        res@ == strip_suffix_all(s@, pat@),
{
    let m = pat.unicode_len();
    let n = s.unicode_len();
    let mut end: usize = n;
    let mut cur: &str = s.substring_char(0, n);
    assert(s@.subrange(0, n as int) =~= s@);
    while m > 0 && ends_with(cur, pat)
        invariant
            m == pat@.len(),
            n == s@.len(),
            end <= n,
            cur@ == s@.subrange(0, end as int),
            strip_suffix_all(s@, pat@) == strip_suffix_all(cur@, pat@),
        decreases end,
    {
        end = end - m;
        cur = s.substring_char(0, end);
        assert(cur@ =~= s@.subrange(0, (end + m) as int).subrange(0, (end + m) - m));
    }
    cur
}

proof fn lemma_first_line_prefix(s: Seq<char>, k: int)
    requires
        0 <= k <= s.len(),
        forall|t: int| 0 <= t < k ==> #[trigger] s[t] != '\n',
        k == s.len() || s[k] == '\n',
    ensures
        first_line(s) == s.subrange(0, k),
    decreases k,
{
    if k > 0 {
        lemma_first_line_prefix(s.drop_first(), k - 1);
        assert(seq![s[0]] + s.drop_first().subrange(0, k - 1) =~= s.subrange(0, k));
    } else {
        assert(s.subrange(0, 0) =~= Seq::<char>::empty());
    }
}

/// The text of `s` before its first line feed.
pub fn first_line_of(s: &str) -> (res: &str)
    ensures
        res@ == first_line(s@),
{
    let n = s.unicode_len();
    let mut k: usize = 0;
    while k < n && s.get_char(k) != '\n'
        invariant
            n == s@.len(),
            k <= n,
            forall|t: int| 0 <= t < k ==> #[trigger] s@[t] != '\n',
        decreases n - k,
    {
        k = k + 1;
    }
    proof { lemma_first_line_prefix(s@, k as int); }
    s.substring_char(0, k)
}

/// `s` with every `from` character replaced by `to`.
pub fn replace_char_with(s: &str, from: char, to: &str) -> (res: String)
    ensures
        res@ == replace_char(s@, from, to@),
{
    let n = s.unicode_len();
    let mut out = String::new();
    let mut i: usize = 0;
    while i < n
        invariant
            n == s@.len(),
            i <= n,
            out@ == replace_char(s@.subrange(0, i as int), from, to@),
        decreases n - i,
    {
        let c = s.get_char(i);
        if c == from {
            out.append(to);
        } else {
            out.append(s.substring_char(i, i + 1));
        }
        proof {
            let pre = s@.subrange(0, i + 1);
            assert(pre.drop_last() =~= s@.subrange(0, i as int));
            assert(pre.last() == c);
            assert(s@.subrange(i as int, i + 1) =~= seq![c]);
        }
        i = i + 1;
    }
    assert(s@.subrange(0, n as int) =~= s@);
    out
}

} // verus!
