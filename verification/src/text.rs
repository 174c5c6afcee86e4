//! Character-level text handling shared by every rule: lowering, trimming,
//! decimal rendering and the two integer readers (`str::parse::<i64>` and
//! C's `strtol(value, NULL, 0)`) that `.dat` values are read through.
use vstd::prelude::*;

verus! {

// ---------------------------------------------------------------------------
// Conversions between `str`/`String` and `Vec<char>`
// ---------------------------------------------------------------------------

/// The characters of `s`, in order.
pub fn chars_of(s: &str) -> (res: Vec<char>)
    ensures
        res@ == s@,
{
    let mut v: Vec<char> = Vec::new();
    for c in it: s.chars()
        invariant
            v@ == it.seq().take(it.index() as int),
            it.seq() == s@,
    {
        v.push(c);
    }
    v
}

/// `String::push`: appends one character.
#[verifier::external_body]
pub(crate) fn push_char(s: &mut String, c: char)
    ensures
        final(s)@ == old(s)@.push(c),
{
    s.push(c);
}

/// The string made of the characters of `v`.
pub fn string_of(v: &[char]) -> (res: String)
    ensures
        res@ == v@,
{
    let mut s = String::new();
    let mut i: usize = 0;
    while i < v.len()
        invariant
            i <= v.len(),
            s@ == v@.take(i as int),
        decreases v.len() - i,
    {
        push_char(&mut s, v[i]);
        i = i + 1;
        assert(s@ =~= v@.take(i as int));
    }
    assert(v@.take(v.len() as int) =~= v@);
    s
}

/// A fresh `String` holding `s`.
pub fn owned(s: &str) -> (res: String)
    ensures
        res@ == s@,
{
    String::from_str(s)
}

/// `a` followed by `b`.
pub fn concat2(a: &str, b: &str) -> (res: String)
    ensures
        res@ == a@ + b@,
{
    let mut s = String::from_str(a);
    s.append(b);
    s
}

/// `a`, `b` and `c` one after the other.
pub fn concat3(a: &str, b: &str, c: &str) -> (res: String)
    ensures
        res@ == a@ + b@ + c@,
{
    let mut s = String::from_str(a);
    s.append(b);
    s.append(c);
    s
}

/// Whether `a` and `b` hold the same characters.
pub fn str_eq(a: &str, b: &str) -> (res: bool)
    ensures
        res == (a@ == b@),
{
    let x = String::from_str(a);
    let y = String::from_str(b);
    x == y
}

/// Whether `s` occurs in `list`.
pub fn str_in(s: &str, list: &[&str]) -> (res: bool)
    ensures
        res == exists|i: int| 0 <= i < list@.len() && list@[i]@ == s@,
{
    let mut i: usize = 0;
    while i < list.len()
        invariant
            i <= list.len(),
            forall|j: int| 0 <= j < i ==> list@[j]@ != s@,
        decreases list.len() - i,
    {
        if str_eq(list[i], s) {
            return true;
        }
        i = i + 1;
    }
    false
}

/// The views of the strings of a list.
pub open spec fn views(list: Seq<&str>) -> Seq<Seq<char>> {
    list.map_values(|s: &str| s@)
}

// ---------------------------------------------------------------------------
// ASCII lowering
// ---------------------------------------------------------------------------

pub open spec fn lower_char(c: char) -> char {
    if 'A' <= c && c <= 'Z' {
        ((c as u32) + 32) as char
    } else {
        c
    }
}

/// `str::to_ascii_lowercase`: `A`..`Z` become `a`..`z`, every other character stays.
pub open spec fn lower(s: Seq<char>) -> Seq<char> {
    s.map_values(|c: char| lower_char(c))
}

fn lower_char_exec(c: char) -> (res: char)
    ensures
        res == lower_char(c),
{
    if 'A' <= c && c <= 'Z' {
        let b: u8 = c as u8;
        assert(b == c as u32);
        let r: char = (b + 32) as char;
        r
    } else {
        c
    }
}

/// `s.to_ascii_lowercase()`.
pub fn to_lower(s: &str) -> (res: String)
    ensures
        res@ == lower(s@),
{
    let v = chars_of(s);
    let mut out: Vec<char> = Vec::new();
    let mut i: usize = 0;
    while i < v.len()
        invariant
            i <= v.len(),
            v@ == s@,
            out@ == lower(v@.take(i as int)),
        decreases v.len() - i,
    {
        out.push(lower_char_exec(v[i]));
        i = i + 1;
        assert(lower(v@.take(i as int)) =~= lower(v@.take((i - 1) as int)).push(lower_char(v@[i - 1])));
    }
    assert(v@.take(v.len() as int) =~= v@);
    string_of(&out)
}

// ---------------------------------------------------------------------------
// Whitespace trimming (`str::trim`)
// ---------------------------------------------------------------------------

/// Unicode `White_Space`, the set that `char::is_whitespace` tests.
pub open spec fn is_ws(c: char) -> bool {
    ||| ('\u{9}' <= c && c <= '\u{d}')
    ||| c == ' '
    ||| c == '\u{85}'
    ||| c == '\u{a0}'
    ||| c == '\u{1680}'
    ||| ('\u{2000}' <= c && c <= '\u{200a}')
    ||| c == '\u{2028}'
    ||| c == '\u{2029}'
    ||| c == '\u{202f}'
    ||| c == '\u{205f}'
    ||| c == '\u{3000}'
}

fn is_ws_exec(c: char) -> (res: bool)
    ensures
        res == is_ws(c),
{
    ('\u{9}' <= c && c <= '\u{d}') || c == ' ' || c == '\u{85}' || c == '\u{a0}' || c
        == '\u{1680}' || ('\u{2000}' <= c && c <= '\u{200a}') || c == '\u{2028}' || c
        == '\u{2029}' || c == '\u{202f}' || c == '\u{205f}' || c == '\u{3000}'
}

/// `s` without its leading whitespace.
pub open spec fn trim_start(s: Seq<char>) -> Seq<char>
    decreases s.len(),
{
    if s.len() > 0 && is_ws(s[0]) {
        trim_start(s.drop_first())
    } else {
        s
    }
}

/// `s` without its trailing whitespace.
pub open spec fn trim_end(s: Seq<char>) -> Seq<char>
    decreases s.len(),
{
    if s.len() > 0 && is_ws(s.last()) {
        trim_end(s.drop_last())
    } else {
        s
    }
}

/// `str::trim`: both ends stripped of whitespace.
pub open spec fn trim(s: Seq<char>) -> Seq<char> {
    trim_end(trim_start(s))
}

proof fn lemma_trim_start_skip(s: Seq<char>, i: int)
    requires
        0 <= i <= s.len(),
        forall|j: int| 0 <= j < i ==> is_ws(#[trigger] s[j]),
    ensures
        trim_start(s) == trim_start(s.skip(i)),
    decreases i,
{
    if i > 0 {
        assert(s.skip(1) =~= s.drop_first());
        lemma_trim_start_skip(s.drop_first(), i - 1);
        assert(s.drop_first().skip(i - 1) =~= s.skip(i));
    } else {
        assert(s.skip(0) =~= s);
    }
}

proof fn lemma_trim_end_take(s: Seq<char>, k: int)
    requires
        0 <= k <= s.len(),
        forall|j: int| k <= j < s.len() ==> is_ws(#[trigger] s[j]),
    ensures
        trim_end(s) == trim_end(s.take(k)),
    decreases s.len() - k,
{
    if k < s.len() {
        assert(s.take(s.len() - 1) =~= s.drop_last());
        lemma_trim_end_take(s.drop_last(), k);
        assert(s.drop_last().take(k) =~= s.take(k));
    } else {
        assert(s.take(k) =~= s);
    }
}

/// The trimmed characters of `s`.
pub fn trim_chars(s: &str) -> (res: Vec<char>)
    ensures
        res@ == trim(s@),
{
    let v = chars_of(s);
    let mut i: usize = 0;
    while i < v.len() && is_ws_exec(v[i])
        invariant
            i <= v.len(),
            v@ == s@,
            forall|j: int| 0 <= j < i ==> is_ws(#[trigger] v@[j]),
        decreases v.len() - i,
    {
        i = i + 1;
    }
    proof {
        lemma_trim_start_skip(v@, i as int);
        if (i as int) < v@.len() {
            assert(v@.skip(i as int)[0] == v@[i as int]);
        }
    }
    let mut k: usize = v.len();
    while k > i && is_ws_exec(v[k - 1])
        invariant
            i <= k <= v.len(),
            v@ == s@,
            forall|j: int| k <= j < v.len() ==> is_ws(#[trigger] v@[j]),
        decreases k,
    {
        k = k - 1;
    }
    let mut out: Vec<char> = Vec::new();
    let mut j: usize = i;
    while j < k
        invariant
            i <= j <= k <= v.len(),
            out@ == v@.subrange(i as int, j as int),
        decreases k - j,
    {
        out.push(v[j]);
        j = j + 1;
        assert(out@ =~= v@.subrange(i as int, j as int));
    }
    proof {
        let t = v@.skip(i as int);
        assert(trim_start(v@) == t) by {
            if (i as int) < v@.len() {
                assert(!is_ws(t[0]));
            }
        }
        assert forall|j: int| k - i <= j < t.len() implies is_ws(#[trigger] t[j]) by {
            assert(t[j] == v@[j + i]);
        }
        lemma_trim_end_take(t, k - i);
        let u = t.take(k - i);
        assert(u =~= v@.subrange(i as int, k as int));
        if k > i {
            assert(u.last() == v@[k - 1]);
        }
        assert(trim_end(u) == u);
    }
    out
}

/// The trimmed text of `s`.
pub fn trimmed(s: &str) -> (res: String)
    ensures
        res@ == trim(s@),
{
    let v = trim_chars(s);
    string_of(&v)
}


// ---------------------------------------------------------------------------
// Decimal rendering
// ---------------------------------------------------------------------------

pub open spec fn digit_char(d: nat) -> char {
    ((('0' as u32) as nat) + d) as char
}

/// The decimal digits of `n`, most significant first, without leading zeros.
pub open spec fn decimal(n: nat) -> Seq<char>
    decreases n,
{
    if n < 10 {
        seq![digit_char(n)]
    } else {
        decimal(n / 10).push(digit_char(n % 10))
    }
}

/// `n` as `format!("{n}")` writes it: a `-` before the digits of a negative number.
pub open spec fn signed_decimal(n: int) -> Seq<char> {
    if n < 0 {
        seq!['-'] + decimal((-n) as nat)
    } else {
        decimal(n as nat)
    }
}

fn digit_char_exec(d: u128) -> (c: char)
    requires
        d < 10,
    ensures
        c == digit_char(d as nat),
{
    let b: u8 = (48 + d) as u8;
    b as char
}

fn decimal_chars(n: u128, out: &mut Vec<char>)
    ensures
        final(out)@ == old(out)@ + decimal(n as nat),
    decreases n,
{
    if n < 10 {
        out.push(digit_char_exec(n));
    } else {
        decimal_chars(n / 10, out);
        out.push(digit_char_exec(n % 10));
    }
}

/// `format!("{n}")` for an unsigned number.
pub fn decimal_string(n: u64) -> (res: String)
    ensures
        res@ == decimal(n as nat),
{
    let mut v: Vec<char> = Vec::new();
    decimal_chars(n as u128, &mut v);
    assert(v@ =~= decimal(n as nat));
    string_of(&v)
}

/// `format!("{n}")` for a signed number.
pub fn signed_decimal_string(n: i128) -> (res: String)
    requires
        n > i128::MIN,
    ensures
        res@ == signed_decimal(n as int),
{
    let mut v: Vec<char> = Vec::new();
    if n < 0 {
        v.push('-');
        let m: u128 = (-n) as u128;
        decimal_chars(m, &mut v);
    } else {
        decimal_chars(n as u128, &mut v);
    }
    string_of(&v)
}

// ---------------------------------------------------------------------------
// `str::parse::<i64>` (what the rules apply to a trimmed value)
// ---------------------------------------------------------------------------

pub open spec fn is_digit(c: char) -> bool {
    '0' <= c && c <= '9'
}

pub open spec fn digit_val(c: char) -> int {
    (c as int) - ('0' as int)
}

/// The number that a run of decimal digits denotes.
pub open spec fn digits_value(s: Seq<char>) -> int
    decreases s.len(),
{
    if s.len() == 0 {
        0
    } else {
        digits_value(s.drop_last()) * 10 + digit_val(s.last())
    }
}

pub open spec fn all_digits(s: Seq<char>) -> bool {
    forall|i: int| 0 <= i < s.len() ==> is_digit(#[trigger] s[i])
}

/// Rust's `i64::from_str`: an optional `+` or `-`, then one or more ASCII
/// digits and nothing else; a value outside `i64` is an error.
pub open spec fn parse_i64(s: Seq<char>) -> Option<i64> {
    let neg = s.len() > 0 && s[0] == '-';
    let body = if s.len() > 0 && (s[0] == '-' || s[0] == '+') {
        s.drop_first()
    } else {
        s
    };
    if body.len() == 0 || !all_digits(body) {
        None
    } else {
        let v = if neg {
            -digits_value(body)
        } else {
            digits_value(body)
        };
        if i64::MIN <= v && v <= i64::MAX {
            Some(v as i64)
        } else {
            None
        }
    }
}

/// The cap above which a digit run's value is only known to be too large.
pub open spec fn cap() -> int {
    0x1_0000_0000_0000_0000
}

pub open spec fn capped(v: int) -> int {
    if v < cap() {
        v
    } else {
        cap()
    }
}

proof fn lemma_capped_step(v: int, d: int, base: int)
    requires
        v >= 0,
        0 <= d < base,
        2 <= base <= 16,
    ensures
        capped(capped(v) * base + d) == capped(v * base + d),
{
    if v >= cap() {
        assert(v * base >= cap() * base) by (nonlinear_arith)
            requires
                v >= cap(),
                base >= 2,
        ;
        assert(cap() * base >= cap()) by (nonlinear_arith)
            requires
                base >= 2,
        ;
    }
}

proof fn lemma_digits_value_nonneg(s: Seq<char>)
    requires
        forall|i: int| 0 <= i < s.len() ==> is_digit(#[trigger] s[i]),
    ensures
        digits_value(s) >= 0,
    decreases s.len(),
{
    if s.len() > 0 {
        lemma_digits_value_nonneg(s.drop_last());
        assert(is_digit(s[s.len() - 1]));
    }
}

/// `s.trim().parse::<i64>()` as an `Option`.
pub fn parse_trimmed_i64(s: &str) -> (res: Option<i64>)
    ensures
        res == parse_i64(trim(s@)),
{
    let v = trim_chars(s);
    parse_i64_chars(&v)
}

/// `s.parse::<i64>()` as an `Option` (no trimming).
pub fn parse_i64_str(s: &str) -> (res: Option<i64>)
    ensures
        res == parse_i64(s@),
{
    let v = chars_of(s);
    parse_i64_chars(&v)
}

pub fn parse_i64_chars(v: &Vec<char>) -> (res: Option<i64>)
    ensures
        res == parse_i64(v@),
{
    let n = v.len();
    let neg = n > 0 && v[0] == '-';
    let start: usize = if n > 0 && (v[0] == '-' || v[0] == '+') {
        1
    } else {
        0
    };
    let ghost body = if v@.len() > 0 && (v@[0] == '-' || v@[0] == '+') {
        v@.drop_first()
    } else {
        v@
    };
    assert(body =~= v@.skip(start as int));
    if start == n {
        assert(body.len() == 0);
        return None;
    }
    let mut acc: u128 = 0;
    let mut i: usize = start;
    while i < n
        invariant
            start <= i <= n == v@.len(),
            body =~= v@.skip(start as int),
            body == (if v@.len() > 0 && (v@[0] == '-' || v@[0] == '+') {
                v@.drop_first()
            } else {
                v@
            }),
            forall|j: int| start <= j < i ==> is_digit(#[trigger] v@[j]),
            acc as int == capped(digits_value(v@.subrange(start as int, i as int))),
            digits_value(v@.subrange(start as int, i as int)) >= 0,
        decreases n - i,
    {
        let c = v[i];
        if !('0' <= c && c <= '9') {
            assert(!is_digit(body[i - start]));
            assert(!all_digits(body));
            return None;
        }
        let d: u128 = (c as u32 - 48) as u128;
        let ghost old_sub = v@.subrange(start as int, i as int);
        let ghost new_sub = v@.subrange(start as int, i + 1);
        assert(new_sub.drop_last() =~= old_sub);
        proof {
            lemma_capped_step(digits_value(old_sub), d as int, 10);
        }
        let t: u128 = acc * 10 + d;
        if t < 0x1_0000_0000_0000_0000 {
            acc = t;
        } else {
            acc = 0x1_0000_0000_0000_0000;
        }
        i = i + 1;
    }
    assert(v@.subrange(start as int, n as int) =~= body);
    if neg {
        if acc <= 0x8000_0000_0000_0000 {
            let r: i128 = -(acc as i128);
            Some(r as i64)
        } else {
            None
        }
    } else {
        if acc <= 0x7fff_ffff_ffff_ffff {
            Some(acc as i64)
        } else {
            None
        }
    }
}


// ---------------------------------------------------------------------------
// `strtol(value, NULL, 0)` (what makeobj's `tabfileobj_t::get_int` calls)
// ---------------------------------------------------------------------------

/// C's `isspace` in the "C" locale.
pub open spec fn is_c_space(c: char) -> bool {
    c == ' ' || ('\u{9}' <= c && c <= '\u{d}')
}

pub open spec fn skip_c_space(s: Seq<char>) -> Seq<char>
    decreases s.len(),
{
    if s.len() > 0 && is_c_space(s[0]) {
        skip_c_space(s.drop_first())
    } else {
        s
    }
}

/// The value of `c` as a digit in `base` (8, 10 or 16), if it is one.
pub open spec fn digit_in(c: char, base: int) -> Option<int> {
    if '0' <= c && c <= '9' && digit_val(c) < base {
        Some(digit_val(c))
    } else if base == 16 && 'a' <= c && c <= 'f' {
        Some((c as int) - ('a' as int) + 10)
    } else if base == 16 && 'A' <= c && c <= 'F' {
        Some((c as int) - ('A' as int) + 10)
    } else {
        None
    }
}

/// The length of the run of `base` digits that starts `s`.
pub open spec fn run_len(s: Seq<char>, base: int) -> nat
    decreases s.len(),
{
    if s.len() > 0 && digit_in(s[0], base) is Some {
        1 + run_len(s.drop_first(), base)
    } else {
        0
    }
}

/// The number that a run of `base` digits denotes.
pub open spec fn value_in(s: Seq<char>, base: int) -> int
    decreases s.len(),
{
    if s.len() == 0 {
        0
    } else {
        value_in(s.drop_last(), base) * base + digit_in(s.last(), base).unwrap()
    }
}

/// A leading sign of `t`: whether it is `-`, and what follows it.
pub open spec fn sign_split(t: Seq<char>) -> (bool, Seq<char>) {
    if t.len() > 0 && (t[0] == '-' || t[0] == '+') {
        (t[0] == '-', t.drop_first())
    } else {
        (false, t)
    }
}

/// Whether `u` starts with `0x`/`0X` and a hex digit.
pub open spec fn hex_prefixed(u: Seq<char>) -> bool {
    u.len() >= 3 && u[0] == '0' && (u[1] == 'x' || u[1] == 'X') && digit_in(u[2], 16) is Some
}

/// The base that `strtol(_, _, 0)` picks for the unsigned part `u`.
pub open spec fn base_of(u: Seq<char>) -> int {
    if hex_prefixed(u) {
        16
    } else if u.len() >= 1 && u[0] == '0' {
        8
    } else {
        10
    }
}

/// The digits of the unsigned part `u`, its `0x` prefix removed.
pub open spec fn digits_of(u: Seq<char>) -> Seq<char> {
    if hex_prefixed(u) {
        u.skip(2)
    } else {
        u
    }
}

/// `v` saturated into `i64`.
pub open spec fn saturate_i64(v: int) -> i64 {
    if v < i64::MIN {
        i64::MIN
    } else if v > i64::MAX {
        i64::MAX
    } else {
        v as i64
    }
}

/// `strtol(s, NULL, 0)` on a 64-bit `long`, or `None` where it converts no
/// digit at all (and so returns 0): leading C whitespace is skipped, a sign is
/// read, `0x`/`0X` before a hex digit selects base 16, a leading `0` base 8,
/// anything else base 10; the longest run of digits is read and a value out
/// of range saturates at `i64::MIN` / `i64::MAX`.
pub open spec fn strtol(s: Seq<char>) -> Option<i64> {
    let (neg, u) = sign_split(skip_c_space(s));
    let base = base_of(u);
    let body = digits_of(u);
    let n = run_len(body, base);
    if n == 0 {
        None
    } else {
        let m = value_in(body.take(n as int), base);
        Some(saturate_i64(if neg { -m } else { m }))
    }
}

proof fn lemma_skip_c_space(s: Seq<char>, i: int)
    requires
        0 <= i <= s.len(),
        forall|j: int| 0 <= j < i ==> is_c_space(#[trigger] s[j]),
        i == s.len() || !is_c_space(s[i]),
    ensures
        skip_c_space(s) == s.skip(i),
    decreases i,
{
    if i > 0 {
        lemma_skip_c_space(s.drop_first(), i - 1);
        assert(s.drop_first().skip(i - 1) =~= s.skip(i));
    } else {
        assert(s.skip(0) =~= s);
    }
}

proof fn lemma_run_len(s: Seq<char>, base: int, k: int)
    requires
        0 <= k <= s.len(),
        forall|j: int| 0 <= j < k ==> (#[trigger] digit_in(s[j], base)) is Some,
        k == s.len() || digit_in(s[k], base) is None,
    ensures
        run_len(s, base) == k,
    decreases k,
{
    if k > 0 {
        assert(digit_in(s[0], base) is Some);
        assert forall|j: int| 0 <= j < k - 1 implies (#[trigger] digit_in(s.drop_first()[j], base)) is Some by {
            assert(s.drop_first()[j] == s[j + 1]);
        }
        lemma_run_len(s.drop_first(), base, k - 1);
    }
}

proof fn lemma_value_in_nonneg(s: Seq<char>, base: int)
    requires
        2 <= base,
        forall|j: int| 0 <= j < s.len() ==> (#[trigger] digit_in(s[j], base)) is Some,
    ensures
        value_in(s, base) >= 0,
    decreases s.len(),
{
    if s.len() > 0 {
        lemma_value_in_nonneg(s.drop_last(), base);
        assert(digit_in(s[s.len() - 1], base) is Some);
        let v = value_in(s.drop_last(), base);
        assert(v * base >= 0) by (nonlinear_arith)
            requires
                v >= 0,
                base >= 2,
        ;
    }
}

fn digit_in_exec(c: char, base: u32) -> (res: Option<u32>)
    requires
        base == 8 || base == 10 || base == 16,
    ensures
        match res {
            Some(d) => digit_in(c, base as int) == Some(d as int) && d < base,
            None => digit_in(c, base as int) is None,
        },
{
    if '0' <= c && c <= '9' && (c as u32 - 48) < base {
        Some(c as u32 - 48)
    } else if base == 16 && 'a' <= c && c <= 'f' {
        Some(c as u32 - 97 + 10)
    } else if base == 16 && 'A' <= c && c <= 'F' {
        Some(c as u32 - 65 + 10)
    } else {
        None
    }
}

/// Reads the run of `base` digits of `v` from `start`: where it ends and its
/// value, capped.
pub fn read_run(v: &Vec<char>, start: usize, base: u32) -> (res: (usize, u128))
    requires
        start <= v@.len(),
        base == 8 || base == 10 || base == 16,
    ensures
        start <= res.0 <= v@.len(),
        forall|j: int| start <= j < res.0 ==> (#[trigger] digit_in(v@[j], base as int)) is Some,
        res.0 == v@.len() || digit_in(v@[res.0 as int], base as int) is None,
        res.1 as int == capped(value_in(v@.subrange(start as int, res.0 as int), base as int)),
{
    let n = v.len();
    let mut i = start;
    let mut acc: u128 = 0;
    assert(v@.subrange(start as int, start as int) =~= Seq::<char>::empty());
    loop
        invariant
            start <= i <= n == v@.len(),
            base == 8 || base == 10 || base == 16,
            forall|j: int| start <= j < i ==> (#[trigger] digit_in(v@[j], base as int)) is Some,
            acc as int == capped(value_in(v@.subrange(start as int, i as int), base as int)),
            value_in(v@.subrange(start as int, i as int), base as int) >= 0,
        ensures
            start <= i <= n,
            forall|j: int| start <= j < i ==> (#[trigger] digit_in(v@[j], base as int)) is Some,
            i == n || digit_in(v@[i as int], base as int) is None,
            acc as int == capped(value_in(v@.subrange(start as int, i as int), base as int)),
        decreases n - i,
    {
        if i >= n {
            break;
        }
        let d = match digit_in_exec(v[i], base) {
            Some(d) => d,
            None => {
                break;
            },
        };
        let ghost old_sub = v@.subrange(start as int, i as int);
        let ghost new_sub = v@.subrange(start as int, i + 1);
        assert(new_sub.drop_last() =~= old_sub);
        proof {
            lemma_capped_step(value_in(old_sub, base as int), d as int, base as int);
            let w = value_in(old_sub, base as int);
            assert(w * base >= 0) by (nonlinear_arith)
                requires
                    w >= 0,
                    base >= 2,
            ;
        }
        assert(acc * (base as u128) <= 0x1_0000_0000_0000_0000 * 16) by (nonlinear_arith)
            requires
                acc <= 0x1_0000_0000_0000_0000,
                base <= 16,
        ;
        let t: u128 = acc * (base as u128) + (d as u128);
        if t < 0x1_0000_0000_0000_0000 {
            acc = t;
        } else {
            acc = 0x1_0000_0000_0000_0000;
        }
        i = i + 1;
    }
    (i, acc)
}

/// `strtol(s, NULL, 0)`, with `None` where no digit is converted.
#[verifier::rlimit(60)]
pub fn parse_strtol_like(s: &str) -> (res: Option<i64>)
    ensures
        res == strtol(s@),
{
    let v = chars_of(s);
    let n = v.len();
    let mut i: usize = 0;
    while i < n && (v[i] == ' ' || ('\u{9}' <= v[i] && v[i] <= '\u{d}'))
        invariant
            i <= n == v@.len(),
            forall|j: int| 0 <= j < i ==> is_c_space(#[trigger] v@[j]),
        decreases n - i,
    {
        i = i + 1;
    }
    proof {
        lemma_skip_c_space(v@, i as int);
    }
    let ghost t = v@.skip(i as int);
    let neg = i < n && v[i] == '-';
    if i < n && (v[i] == '-' || v[i] == '+') {
        i = i + 1;
    }
    let ghost u = v@.skip(i as int);
    assert(sign_split(t) == (neg, u)) by {
        if t.len() > 0 && (t[0] == '-' || t[0] == '+') {
            assert(t.drop_first() =~= u);
        } else {
            assert(t =~= u);
        }
    }
    let ghost base_spec = base_of(u);
    let base: u32 = if n >= 3 && i < n - 2 && v[i] == '0' && (v[i + 1] == 'x' || v[i + 1] == 'X')
        && digit_in_exec(v[i + 2], 16).is_some() {
        assert(hex_prefixed(u));
        i = i + 2;
        assert(v@.skip(i as int) =~= u.skip(2));
        16
    } else {
        assert(!hex_prefixed(u));
        if i < n && v[i] == '0' {
            8
        } else {
            10
        }
    };
    assert(base as int == base_spec);
    let ghost body = digits_of(u);
    assert(body =~= v@.skip(i as int));
    let start = i;
    let (end, acc) = read_run(&v, start, base);
    proof {
        assert forall|j: int| 0 <= j < end - start implies (#[trigger] digit_in(body[j], base as int)) is Some by {
            assert(body[j] == v@[j + start]);
        }
        if end < n {
            assert(body[end - start] == v@[end as int]);
        }
        lemma_run_len(body, base as int, end - start);
        assert(body.take(end - start) =~= v@.subrange(start as int, end as int));
    }
    if end == start {
        return None;
    }
    proof {
        lemma_value_in_nonneg(body.take(end - start), base as int);
    }
    if neg {
        if acc >= 0x8000_0000_0000_0000 {
            Some(i64::MIN)
        } else {
            let r: i128 = -(acc as i128);
            Some(r as i64)
        }
    } else {
        if acc > 0x7fff_ffff_ffff_ffff {
            Some(i64::MAX)
        } else {
            Some(acc as i64)
        }
    }
}


// ---------------------------------------------------------------------------
// UTF-8 length (`str::len`)
// ---------------------------------------------------------------------------

/// The number of bytes UTF-8 uses for `c`.
pub open spec fn char_utf8_len(c: char) -> nat {
    if (c as u32) < 0x80 {
        1
    } else if (c as u32) < 0x800 {
        2
    } else if (c as u32) < 0x10000 {
        3
    } else {
        4
    }
}

/// The number of bytes of the UTF-8 encoding of `s` (what `str::len` counts).
pub open spec fn utf8_len(s: Seq<char>) -> nat
    decreases s.len(),
{
    if s.len() == 0 {
        0
    } else {
        utf8_len(s.drop_last()) + char_utf8_len(s.last())
    }
}

/// `s.len()`: the byte length of `s`.
pub fn byte_len(s: &str) -> (res: u128)
    ensures
        res == utf8_len(s@),
{
    let v = chars_of(s);
    let mut total: u128 = 0;
    let mut i: usize = 0;
    while i < v.len()
        invariant
            i <= v.len(),
            v@ == s@,
            total == utf8_len(v@.take(i as int)),
            total <= 4 * i,
        decreases v.len() - i,
    {
        let c = v[i];
        let cl: u128 = if (c as u32) < 0x80 {
            1
        } else if (c as u32) < 0x800 {
            2
        } else if (c as u32) < 0x10000 {
            3
        } else {
            4
        };
        assert(v@.take(i + 1).drop_last() =~= v@.take(i as int));
        total = total + cl;
        i = i + 1;
    }
    assert(v@.take(v.len() as int) =~= v@);
    total
}


// ---------------------------------------------------------------------------
// Rendering and reading numbers agree
// ---------------------------------------------------------------------------

proof fn lemma_decimal_digits(n: nat)
    ensures
        decimal(n).len() > 0,
        all_digits(decimal(n)),
        digits_value(decimal(n)) == n,
    decreases n,
{
    if n < 10 {
        assert(digit_char(n) as int == 48 + n);
        assert(decimal(n).drop_last() =~= Seq::<char>::empty());
        assert(digits_value(decimal(n)) == digits_value(decimal(n).drop_last()) * 10 + digit_val(decimal(n).last()));
    } else {
        lemma_decimal_digits(n / 10);
        let d = decimal(n);
        assert(d.drop_last() == decimal(n / 10));
        assert(digit_char(n % 10) as int == 48 + n % 10);
        assert(d.last() == digit_char(n % 10));
        assert(digit_val(d.last()) == n % 10);
        assert((n / 10) * 10 + n % 10 == n);
        assert(digits_value(d) == digits_value(d.drop_last()) * 10 + digit_val(d.last()));
        assert forall|i: int| 0 <= i < d.len() implies is_digit(#[trigger] d[i]) by {
            if i < d.len() - 1 {
                assert(d[i] == decimal(n / 10)[i]);
            }
        }
    }
}

/// Reading what `format!("{n}")` writes gives `n` back:
/// `format!("{n}").parse::<i64>() == Ok(n)` for every `i64`.
pub proof fn law_parse_reads_decimal(n: i64)
    ensures
        parse_i64(signed_decimal(n as int)) == Some(n),
{
    if n < 0 {
        let m = (-(n as int)) as nat;
        lemma_decimal_digits(m);
        let s = signed_decimal(n as int);
        assert(s.drop_first() =~= decimal(m));
        assert(s[0] == '-');
    } else {
        lemma_decimal_digits(n as nat);
        let s = decimal(n as nat);
        assert(is_digit(s[0]));
    }
}

} // verus!
