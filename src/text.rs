//! Character-level text primitives with exact specifications over `Seq<char>`.
use vstd::prelude::*;

verus! {

/// The characters for which `char::is_whitespace` holds (Unicode White_Space).
pub open spec fn is_space(c: char) -> bool {
    ('\u{9}' <= c && c <= '\u{d}') || c == ' ' || c == '\u{85}' || c == '\u{a0}'
        || c == '\u{1680}' || ('\u{2000}' <= c && c <= '\u{200a}') || c == '\u{2028}'
        || c == '\u{2029}' || c == '\u{202f}' || c == '\u{205f}' || c == '\u{3000}'
}

pub fn is_space_exec(c: char) -> (r: bool)
    ensures
        r == is_space(c),
{
    ('\u{9}' <= c && c <= '\u{d}') || c == ' ' || c == '\u{85}' || c == '\u{a0}'
        || c == '\u{1680}' || ('\u{2000}' <= c && c <= '\u{200a}') || c == '\u{2028}'
        || c == '\u{2029}' || c == '\u{202f}' || c == '\u{205f}' || c == '\u{3000}'
}

/// Index of the first non-space character at or after `i`.
pub open spec fn skip_spaces(s: Seq<char>, i: int) -> int
    decreases s.len() - i,
{
    if 0 <= i < s.len() && is_space(s[i]) {
        skip_spaces(s, i + 1)
    } else {
        i
    }
}

/// Index just past the last non-space character in `s[lo..hi]`.
pub open spec fn back_spaces(s: Seq<char>, lo: int, hi: int) -> int
    decreases hi - lo,
{
    if lo < hi && hi <= s.len() && is_space(s[hi - 1]) {
        back_spaces(s, lo, hi - 1)
    } else {
        hi
    }
}

/// Index of the first space character at or after `i` (or the length).
pub open spec fn skip_word(s: Seq<char>, i: int) -> int
    decreases s.len() - i,
{
    if 0 <= i < s.len() && !is_space(s[i]) {
        skip_word(s, i + 1)
    } else {
        i
    }
}

/// `s` without leading and trailing whitespace, as `str::trim` gives it.
pub open spec fn trim(s: Seq<char>) -> Seq<char> {
    let lo = skip_spaces(s, 0);
    s.subrange(lo, back_spaces(s, lo, s.len() as int))
}

pub proof fn lemma_skip_spaces_bounds(s: Seq<char>, i: int)
    requires
        0 <= i <= s.len(),
    ensures
        i <= skip_spaces(s, i) <= s.len(),
        skip_spaces(s, i) < s.len() ==> !is_space(s[skip_spaces(s, i)]),
    decreases s.len() - i,
{
    if i < s.len() && is_space(s[i]) {
        lemma_skip_spaces_bounds(s, i + 1);
    }
}

pub proof fn lemma_skip_word_bounds(s: Seq<char>, i: int)
    requires
        0 <= i <= s.len(),
    ensures
        i <= skip_word(s, i) <= s.len(),
    decreases s.len() - i,
{
    if i < s.len() && !is_space(s[i]) {
        lemma_skip_word_bounds(s, i + 1);
    }
}

proof fn lemma_back_spaces_bounds(s: Seq<char>, lo: int, hi: int)
    requires
        0 <= lo <= hi <= s.len(),
    ensures
        lo <= back_spaces(s, lo, hi) <= hi,
    decreases hi - lo,
{
    if lo < hi && is_space(s[hi - 1]) {
        lemma_back_spaces_bounds(s, lo, hi - 1);
    }
}

pub fn skip_spaces_exec(s: &Vec<char>, i: usize) -> (r: usize)
    requires
        i <= s@.len(),
    ensures
        r == skip_spaces(s@, i as int),
        i <= r <= s@.len(),
{
    let mut j: usize = i;
    while j < s.len() && is_space_exec(s[j])
        invariant
            i <= j <= s@.len(),
            skip_spaces(s@, j as int) == skip_spaces(s@, i as int),
        decreases s@.len() - j,
    {
        j = j + 1;
    }
    j
}

pub fn skip_word_exec(s: &Vec<char>, i: usize) -> (r: usize)
    requires
        i <= s@.len(),
    ensures
        r == skip_word(s@, i as int),
        i <= r <= s@.len(),
{
    let mut j: usize = i;
    while j < s.len() && !is_space_exec(s[j])
        invariant
            i <= j <= s@.len(),
            skip_word(s@, j as int) == skip_word(s@, i as int),
        decreases s@.len() - j,
    {
        j = j + 1;
    }
    j
}

/// A copy of `s[lo..hi]`.
pub fn slice(s: &Vec<char>, lo: usize, hi: usize) -> (r: Vec<char>)
    requires
        lo <= hi <= s@.len(),
    ensures
        r@ == s@.subrange(lo as int, hi as int),
{
    let mut r: Vec<char> = Vec::new();
    let mut k: usize = lo;
    while k < hi
        invariant
            lo <= k <= hi <= s@.len(),
            r@ == s@.subrange(lo as int, k as int),
        decreases hi - k,
    {
        r.push(s[k]);
        k = k + 1;
    }
    r
}

pub fn trim_exec(s: &Vec<char>) -> (r: Vec<char>)
    ensures
        r@ == trim(s@),
{
    let lo = skip_spaces_exec(s, 0);
    let mut hi: usize = s.len();
    while lo < hi && is_space_exec(s[hi - 1])
        invariant
            lo <= hi <= s@.len(),
            back_spaces(s@, lo as int, hi as int) == back_spaces(s@, lo as int, s@.len() as int),
        decreases hi,
    {
        hi = hi - 1;
    }
    slice(s, lo, hi)
}


/// Index of the first occurrence of `c` at or after `i` (or the length).
pub open spec fn find_from(s: Seq<char>, c: char, i: int) -> int
    decreases s.len() - i,
{
    if 0 <= i < s.len() && s[i] != c {
        find_from(s, c, i + 1)
    } else {
        i
    }
}

pub proof fn lemma_find_from(s: Seq<char>, c: char, i: int)
    requires
        0 <= i <= s.len(),
    ensures
        i <= find_from(s, c, i) <= s.len(),
        find_from(s, c, i) < s.len() ==> s[find_from(s, c, i)] == c,
        forall|k: int| i <= k < find_from(s, c, i) ==> s[k] != c,
    decreases s.len() - i,
{
    if i < s.len() && s[i] != c {
        lemma_find_from(s, c, i + 1);
    }
}

pub fn find_from_exec(s: &Vec<char>, c: char, i: usize) -> (r: usize)
    requires
        i <= s@.len(),
    ensures
        r == find_from(s@, c, i as int),
        i <= r <= s@.len(),
{
    proof {
        lemma_find_from(s@, c, i as int);
    }
    let mut j: usize = i;
    while j < s.len() && s[j] != c
        invariant
            i <= j <= s@.len(),
            find_from(s@, c, j as int) == find_from(s@, c, i as int),
        decreases s@.len() - j,
    {
        j = j + 1;
    }
    j
}

/// The lines of `s` as `str::lines` yields them: split at `\n`, a `\r` before
/// the `\n` removed, and no empty line after a final `\n`.
pub open spec fn lines_from(s: Seq<char>, i: int) -> Seq<Seq<char>>
    decreases s.len() - i,
    when 0 <= i
    via lines_from_decreases
{
    if i >= s.len() {
        Seq::empty()
    } else {
        let e = find_from(s, '\n', i);
        let line = if e < s.len() && e > i && s[e - 1] == '\r' {
            s.subrange(i, e - 1)
        } else {
            s.subrange(i, e)
        };
        if e < s.len() {
            seq![line] + lines_from(s, e + 1)
        } else {
            seq![line]
        }
    }
}

#[via_fn]
proof fn lines_from_decreases(s: Seq<char>, i: int) {
    if 0 <= i < s.len() {
        lemma_find_from(s, '\n', i);
    }
}

/// The views of a sequence of character vectors.
pub open spec fn seqs(v: Seq<Vec<char>>) -> Seq<Seq<char>> {
    v.map_values(|l: Vec<char>| l@)
}

pub open spec fn lines(s: Seq<char>) -> Seq<Seq<char>> {
    lines_from(s, 0)
}

pub fn split_lines(s: &Vec<char>) -> (r: Vec<Vec<char>>)
    ensures
        seqs(r@) == lines(s@),
{
    let mut r: Vec<Vec<char>> = Vec::new();
    let mut pos: usize = 0;
    assert(seqs(r@) =~= Seq::<Seq<char>>::empty());
    while pos < s.len()
        invariant
            pos <= s@.len(),
            lines(s@) == seqs(r@) + lines_from(s@, pos as int),
        decreases s@.len() - pos,
    {
        let e = find_from_exec(s, '\n', pos);
        let line = if e < s.len() && e > pos && s[e - 1] == '\r' {
            slice(s, pos, e - 1)
        } else {
            slice(s, pos, e)
        };
        let ghost old_r = seqs(r@);
        r.push(line);
        assert(seqs(r@) =~= old_r.push(line@));
        if e < s.len() {
            pos = e + 1;
        } else {
            pos = e;
        }
        assert(lines(s@) =~= seqs(r@) + lines_from(s@, pos as int));
    }
    assert(lines_from(s@, pos as int) =~= Seq::<Seq<char>>::empty());
    assert(lines(s@) =~= seqs(r@));
    r
}

/// The words of `s` as `str::split_whitespace` yields them.
pub open spec fn words_from(s: Seq<char>, i: int) -> Seq<Seq<char>>
    decreases s.len() - i,
    when 0 <= i <= s.len()
    via words_from_decreases
{
    let a = skip_spaces(s, i);
    if a >= s.len() {
        Seq::empty()
    } else {
        let b = skip_word(s, a);
        seq![s.subrange(a, b)] + words_from(s, b)
    }
}

#[via_fn]
proof fn words_from_decreases(s: Seq<char>, i: int) {
    lemma_skip_spaces_bounds(s, i);
    let a = skip_spaces(s, i);
    if a < s.len() {
        lemma_skip_word_bounds(s, a);
        assert(skip_word(s, a) == skip_word(s, a + 1));
        lemma_skip_word_bounds(s, a + 1);
    }
}

pub open spec fn words(s: Seq<char>) -> Seq<Seq<char>> {
    words_from(s, 0)
}

pub fn split_words(s: &Vec<char>) -> (r: Vec<Vec<char>>)
    ensures
        seqs(r@) == words(s@),
{
    let mut r: Vec<Vec<char>> = Vec::new();
    let mut pos: usize = 0;
    assert(seqs(r@) =~= Seq::<Seq<char>>::empty());
    loop
        invariant
            pos <= s@.len(),
            words(s@) == seqs(r@) + words_from(s@, pos as int),
        decreases s@.len() - pos,
    {
        let a = skip_spaces_exec(s, pos);
        if a >= s.len() {
            assert(words(s@) =~= seqs(r@));
            return r;
        }
        let b = skip_word_exec(s, a);
        proof {
            lemma_skip_word_bounds(s@, a as int + 1);
        }
        let w = slice(s, a, b);
        let ghost old_r = seqs(r@);
        r.push(w);
        assert(seqs(r@) =~= old_r.push(w@));
        pos = b;
        assert(words(s@) =~= seqs(r@) + words_from(s@, pos as int));
    }
}

/// `p` occurs in `s` starting at index `i`.
pub open spec fn occurs_at(s: Seq<char>, p: Seq<char>, i: int) -> bool {
    0 <= i && i + p.len() <= s.len() && s.subrange(i, i + p.len()) == p
}

pub open spec fn starts_with(s: Seq<char>, p: Seq<char>) -> bool {
    occurs_at(s, p, 0)
}

pub open spec fn contains(s: Seq<char>, p: Seq<char>) -> bool {
    exists|i: int| occurs_at(s, p, i)
}

pub fn occurs_at_exec(s: &Vec<char>, p: &Vec<char>, i: usize) -> (r: bool)
    ensures
        r == occurs_at(s@, p@, i as int),
{
    if p.len() > s.len() || i > s.len() - p.len() {
        return false;
    }
    let n = s.len();
    let mut k: usize = 0;
    while k < p.len()
        invariant
            k <= p@.len(),
            i + p@.len() <= s@.len(),
            n == s@.len(),
            forall|m: int| 0 <= m < k ==> s@[i + m] == p@[m],
        decreases p@.len() - k,
    {
        assert(i + k < s@.len());
        if s[i + k] != p[k] {
            assert(s@.subrange(i as int, i + p@.len())[k as int] != p@[k as int]);
            return false;
        }
        k = k + 1;
    }
    assert(s@.subrange(i as int, i + p@.len()) =~= p@);
    true
}

pub fn starts_with_exec(s: &Vec<char>, p: &Vec<char>) -> (r: bool)
    ensures
        r == starts_with(s@, p@),
{
    occurs_at_exec(s, p, 0)
}

/// First index at which `p` occurs in `s`.
pub fn find_exec(s: &Vec<char>, p: &Vec<char>) -> (r: Option<usize>)
    ensures
        r is None <==> !contains(s@, p@),
        r matches Some(i) ==> occurs_at(s@, p@, i as int) && forall|j: int|
            0 <= j < i ==> !occurs_at(s@, p@, j),
{
    let n = s.len();
    let m = p.len();
    if m > n {
        return None;
    }
    let last = n - m;
    let mut i: usize = 0;
    loop
        invariant
            i <= last,
            last + p@.len() == s@.len(),
            forall|j: int| 0 <= j < i ==> !occurs_at(s@, p@, j),
        decreases last - i,
    {
        if occurs_at_exec(s, p, i) {
            return Some(i);
        }
        if i == last {
            assert forall|j: int| !occurs_at(s@, p@, j) by {
                if 0 <= j < i {
                }
            }
            return None;
        }
        i = i + 1;
    }
}

pub fn contains_exec(s: &Vec<char>, p: &Vec<char>) -> (r: bool)
    ensures
        r == contains(s@, p@),
{
    find_exec(s, p).is_some()
}


/// `s` with every non-overlapping occurrence of `p` from index `i` on replaced
/// by `r`, scanning left to right as `str::replace` does.
pub open spec fn replace_from(s: Seq<char>, p: Seq<char>, r: Seq<char>, i: int) -> Seq<char>
    decreases s.len() - i,
{
    if i < 0 || i >= s.len() || p.len() == 0 {
        if 0 <= i <= s.len() {
            s.subrange(i, s.len() as int)
        } else {
            Seq::empty()
        }
    } else if occurs_at(s, p, i) {
        r + replace_from(s, p, r, i + p.len())
    } else {
        seq![s[i]] + replace_from(s, p, r, i + 1)
    }
}

pub open spec fn replace(s: Seq<char>, p: Seq<char>, r: Seq<char>) -> Seq<char> {
    replace_from(s, p, r, 0)
}

pub fn replace_exec(s: &Vec<char>, p: &Vec<char>, r: &Vec<char>) -> (out: Vec<char>)
    requires
        p@.len() > 0,
    ensures
        out@ == replace(s@, p@, r@),
{
    let mut out: Vec<char> = Vec::new();
    let mut i: usize = 0;
    let n = s.len();
    while i < n
        invariant
            i <= n == s@.len(),
            p@.len() > 0,
            replace(s@, p@, r@) == out@ + replace_from(s@, p@, r@, i as int),
        decreases n - i,
    {
        if occurs_at_exec(s, p, i) {
            let ghost before = out@;
            let mut k: usize = 0;
            while k < r.len()
                invariant
                    k <= r@.len(),
                    out@ == before + r@.subrange(0, k as int),
                decreases r@.len() - k,
            {
                out.push(r[k]);
                k = k + 1;
            }
            assert(r@.subrange(0, r@.len() as int) =~= r@);
            assert(replace(s@, p@, r@) =~= out@ + replace_from(s@, p@, r@, i + p@.len()));
            i = i + p.len();
        } else {
            out.push(s[i]);
            assert(replace(s@, p@, r@) =~= out@ + replace_from(s@, p@, r@, i + 1));
            i = i + 1;
        }
    }
    assert(replace_from(s@, p@, r@, i as int) =~= Seq::<char>::empty());
    assert(replace(s@, p@, r@) =~= out@);
    out
}

/// The decimal digit character for `d < 10`.
pub open spec fn digit_char(d: nat) -> char {
    if d == 0 { '0' }
    else if d == 1 { '1' }
    else if d == 2 { '2' }
    else if d == 3 { '3' }
    else if d == 4 { '4' }
    else if d == 5 { '5' }
    else if d == 6 { '6' }
    else if d == 7 { '7' }
    else if d == 8 { '8' }
    else { '9' }
}

pub open spec fn is_digit(c: char) -> bool {
    '0' <= c && c <= '9'
}

pub open spec fn digit_value(c: char) -> nat {
    (c as u32 - '0' as u32) as nat
}

/// The decimal representation of `n`, as `Display` writes an unsigned integer.
pub open spec fn decimal(n: nat) -> Seq<char>
    decreases n,
{
    if n < 10 {
        seq![digit_char(n)]
    } else {
        decimal(n / 10).push(digit_char(n % 10))
    }
}

fn digit_char_exec(d: u64) -> (c: char)
    requires
        d < 10,
    ensures
        c == digit_char(d as nat),
{
    if d == 0 { '0' }
    else if d == 1 { '1' }
    else if d == 2 { '2' }
    else if d == 3 { '3' }
    else if d == 4 { '4' }
    else if d == 5 { '5' }
    else if d == 6 { '6' }
    else if d == 7 { '7' }
    else if d == 8 { '8' }
    else { '9' }
}

pub fn decimal_exec(n: u64) -> (r: Vec<char>)
    ensures
        r@ == decimal(n as nat),
{
    let mut acc: Vec<char> = Vec::new();
    let mut q: u64 = n;
    while q >= 10
        invariant
            decimal(n as nat) == decimal(q as nat) + acc@,
        decreases q,
    {
        let d = digit_char_exec(q % 10);
        acc.insert(0, d);
        assert(decimal(q as nat) =~= decimal((q / 10) as nat).push(d));
        assert(decimal(n as nat) =~= decimal((q / 10) as nat) + acc@);
        q = q / 10;
    }
    let d = digit_char_exec(q);
    acc.insert(0, d);
    assert(decimal(n as nat) =~= acc@);
    acc
}

/// `num / den` rounded to the nearest multiple of one tenth, ties to even,
/// counted in tenths.
pub open spec fn tenths(num: nat, den: nat) -> nat
    recommends
        den > 0,
{
    let x = num * 10;
    let q = x / den;
    let rem = x % den;
    if 2 * rem > den || (2 * rem == den && q % 2 == 1) {
        q + 1
    } else {
        q
    }
}

/// A count of tenths written with one decimal place (`{:.1}`).
pub open spec fn one_decimal(t: nat) -> Seq<char> {
    decimal(t / 10).push('.').push(digit_char(t % 10))
}

pub fn tenths_exec(num: u64, den: u64) -> (t: u64)
    requires
        den >= 20,
    ensures
        t == tenths(num as nat, den as nat),
{
    let x: u128 = (num as u128) * 10;
    let q: u128 = x / (den as u128);
    let rem: u128 = x % (den as u128);
    assert(q * 2 <= num as u128) by (nonlinear_arith)
        requires q == x / (den as u128), den >= 20, x == (num as u128) * 10;
    let r: u128 = if 2 * rem > den as u128 || (2 * rem == den as u128 && q % 2 == 1) {
        q + 1
    } else {
        q
    };
    r as u64
}

pub fn one_decimal_exec(t: u64) -> (r: Vec<char>)
    ensures
        r@ == one_decimal(t as nat),
{
    let mut r = decimal_exec(t / 10);
    r.push('.');
    r.push(digit_char_exec(t % 10));
    r
}

/// The value of a run of decimal digits.
pub open spec fn digits_value(s: Seq<char>) -> nat
    decreases s.len(),
{
    if s.len() == 0 {
        0
    } else {
        digits_value(s.drop_last()) * 10 + digit_value(s.last())
    }
}

pub open spec fn all_digits(s: Seq<char>) -> bool {
    forall|k: int| 0 <= k < s.len() ==> is_digit(#[trigger] s[k])
}

/// What `u64::from_str` accepts: an optional `+`, then one or more ASCII
/// digits, with a value that fits in 64 bits.
pub open spec fn parse_u64(s: Seq<char>) -> Option<u64> {
    let body = if s.len() > 0 && s[0] == '+' { s.drop_first() } else { s };
    if body.len() > 0 && all_digits(body) && digits_value(body) <= u64::MAX {
        Some(digits_value(body) as u64)
    } else {
        None
    }
}

proof fn lemma_digits_prefix(s: Seq<char>, k: int)
    requires
        0 <= k <= s.len(),
    ensures
        digits_value(s.take(k)) <= digits_value(s),
    decreases s.len(),
{
    if k < s.len() {
        lemma_digits_prefix(s.drop_last(), k);
        assert(s.drop_last().take(k) =~= s.take(k));
    } else {
        assert(s.take(k) =~= s);
    }
}

pub fn parse_u64_exec(s: &Vec<char>) -> (r: Option<u64>)
    ensures
        r == parse_u64(s@),
{
    let n = s.len();
    let start: usize = if n > 0 && s[0] == '+' { 1 } else { 0 };
    let ghost body = if s@.len() > 0 && s@[0] == '+' { s@.drop_first() } else { s@ };
    assert(body =~= s@.subrange(start as int, n as int));
    if start >= n {
        return None;
    }
    let mut v: u64 = 0;
    let mut i: usize = start;
    while i < n
        invariant
            start <= i <= n == s@.len(),
            body == s@.subrange(start as int, n as int),
            body == (if s@.len() > 0 && s@[0] == '+' { s@.drop_first() } else { s@ }),
            v as nat == digits_value(body.take(i - start)),
            all_digits(body.take(i - start)),
        decreases n - i,
    {
        let c = s[i];
        if !('0' <= c && c <= '9') {
            assert(body[i - start] == c);
            assert(!is_digit(body[i - start]));
            assert(!all_digits(body));
            assert(parse_u64(s@) is None);
            return None;
        }
        let d: u64 = (c as u32 - '0' as u32) as u64;
        assert(body.take(i - start + 1).drop_last() =~= body.take(i - start));
        assert(body.take(i - start + 1).last() == c);
        assert(all_digits(body.take(i - start + 1)));
        if v > (u64::MAX - d) / 10 {
            proof {
                lemma_digits_prefix(body, i - start + 1);
                assert(v * 10 + d > u64::MAX) by (nonlinear_arith)
                    requires v > (u64::MAX - d) / 10, d <= 9;
                assert(digit_value(c) == d);
                assert(digits_value(body.take(i - start + 1)) == v * 10 + d);
                assert(digits_value(body) > u64::MAX);
                assert(parse_u64(s@) is None);
            }
            return None;
        }
        assert(v * 10 + d <= u64::MAX) by (nonlinear_arith)
            requires v <= (u64::MAX - d) / 10, d <= 9;
        v = v * 10 + d;
        i = i + 1;
    }
    assert(body.take(n - start) =~= body);
    Some(v)
}

/// Relies on `str::chars`: the characters of `s`, in order.
#[verifier::external_body]
pub fn chars_of(s: &str) -> (r: Vec<char>)
    ensures
        r@ == s@,
{
    s.chars().collect()
}

/// Relies on `String`'s `FromIterator<char>`: the string made of `v`'s characters.
#[verifier::external_body]
pub fn string_of(v: &Vec<char>) -> (r: String)
    ensures
        r@ == v@,
{
    v.iter().collect()
}

/// What `str::to_lowercase` returns for a string with the given characters.
pub uninterp spec fn lower_of(s: Seq<char>) -> Seq<char>;

/// Relies on `str::to_lowercase`: the result depends on the characters alone.
#[verifier::external_body]
pub fn lowercase(s: &str) -> (r: String)
    ensures
        r@ == lower_of(s@),
{
    s.to_lowercase()
}


/// What `f` gives for the first line of `ls` for which it gives anything.
pub open spec fn first_some<T>(ls: Seq<Seq<char>>, f: spec_fn(Seq<char>) -> Option<T>) -> Option<T>
    decreases ls.len(),
{
    if ls.len() == 0 {
        None
    } else {
        match f(ls[0]) {
            Some(x) => Some(x),
            None => first_some(ls.drop_first(), f),
        }
    }
}

/// One step of a scan for `first_some` from index `i`.
pub proof fn lemma_first_some_step<T>(ls: Seq<Seq<char>>, f: spec_fn(Seq<char>) -> Option<T>, i: int)
    requires
        0 <= i < ls.len(),
    ensures
        first_some(ls.subrange(i, ls.len() as int), f) == match f(ls[i]) {
            Some(x) => Some(x),
            None => first_some(ls.subrange(i + 1, ls.len() as int), f),
        },
{
    let rest = ls.subrange(i, ls.len() as int);
    assert(rest.drop_first() =~= ls.subrange(i + 1, ls.len() as int));
    assert(rest[0] == ls[i]);
}

/// The ends of a scan for `first_some`.
pub proof fn lemma_first_some_ends<T>(ls: Seq<Seq<char>>, f: spec_fn(Seq<char>) -> Option<T>)
    ensures
        first_some(ls.subrange(0, ls.len() as int), f) == first_some(ls, f),
        first_some(ls.subrange(ls.len() as int, ls.len() as int), f) is None,
{
    assert(ls.subrange(0, ls.len() as int) =~= ls);
    assert(ls.subrange(ls.len() as int, ls.len() as int) =~= Seq::<Seq<char>>::empty());
}

/// The text between the first colon and the next one (or the end), as
/// `line.split(':').nth(1)` gives it.
pub open spec fn colon_field(line: Seq<char>) -> Option<Seq<char>> {
    let c = find_from(line, ':', 0);
    if c < line.len() {
        Some(line.subrange(c + 1, find_from(line, ':', c + 1)))
    } else {
        None
    }
}

pub fn colon_field_exec(line: &Vec<char>) -> (r: Option<Vec<char>>)
    ensures
        match r {
            Some(x) => colon_field(line@) == Some(x@),
            None => colon_field(line@) is None,
        },
{
    let c = find_from_exec(line, ':', 0);
    if c < line.len() {
        let d = find_from_exec(line, ':', c + 1);
        Some(slice(line, c + 1, d))
    } else {
        None
    }
}

/// The word at `k` of `words(s)`, where there is one.
pub open spec fn word_at(s: Seq<char>, k: int) -> Option<Seq<char>> {
    if 0 <= k < words(s).len() {
        Some(words(s)[k])
    } else {
        None
    }
}


/// Equality of two character vectors.
pub fn eq_exec(a: &Vec<char>, b: &Vec<char>) -> (r: bool)
    ensures
        r == (a@ == b@),
{
    let r = a.len() == b.len() && starts_with_exec(a, b);
    proof {
        if a@.len() == b@.len() && starts_with(a@, b@) {
            assert(a@ =~= a@.subrange(0, b@.len() as int));
        }
        if a@ == b@ {
            assert(a@.subrange(0, b@.len() as int) =~= b@);
        }
    }
    r
}


/// The first index at which `p` occurs in `s`, where it occurs.
#[verifier::opaque]
pub open spec fn find(s: Seq<char>, p: Seq<char>) -> Option<int> {
    if contains(s, p) {
        Some(choose|i: int| occurs_at(s, p, i) && forall|j: int| 0 <= j < i ==> !occurs_at(s, p, j))
    } else {
        None
    }
}

pub fn find_first(s: &Vec<char>, p: &Vec<char>) -> (r: Option<usize>)
    ensures
        r matches Some(i) ==> occurs_at(s@, p@, i as int),
        match r {
            Some(i) => find(s@, p@) == Some(i as int),
            None => find(s@, p@) is None,
        },
{
    reveal(find);
    let r = find_exec(s, p);
    if let Some(i) = r {
        proof {
            let k = choose|k: int| occurs_at(s@, p@, k) && forall|j: int| 0 <= j < k ==> !occurs_at(s@, p@, j);
            assert(occurs_at(s@, p@, k) && forall|j: int| 0 <= j < k ==> !occurs_at(s@, p@, j));
            if k < i {
            } else if k > i {
            }
        }
    }
    r
}

/// Index just past the run of ASCII digits that starts at `i`.
pub open spec fn digit_run(s: Seq<char>, i: int) -> int
    decreases s.len() - i,
{
    if 0 <= i < s.len() && is_digit(s[i]) {
        digit_run(s, i + 1)
    } else {
        i
    }
}

proof fn lemma_digit_run(s: Seq<char>, i: int)
    requires
        0 <= i <= s.len(),
    ensures
        i <= digit_run(s, i) <= s.len(),
    decreases s.len() - i,
{
    if i < s.len() && is_digit(s[i]) {
        lemma_digit_run(s, i + 1);
    }
}

pub fn digit_run_exec(s: &Vec<char>, i: usize) -> (r: usize)
    requires
        i <= s@.len(),
    ensures
        r == digit_run(s@, i as int),
        i <= r <= s@.len(),
{
    proof {
        lemma_digit_run(s@, i as int);
    }
    let mut j: usize = i;
    while j < s.len() && '0' <= s[j] && s[j] <= '9'
        invariant
            i <= j <= s@.len(),
            digit_run(s@, j as int) == digit_run(s@, i as int),
        decreases s@.len() - j,
    {
        j = j + 1;
    }
    j
}

/// `c` is `l`, or the ASCII upper-case form of `l`.
pub open spec fn same_ignore_case(c: char, l: char) -> bool {
    c == l || ('A' <= c && c <= 'Z' && (c as u32) + 32 == l as u32)
}

/// `s` equals the lower-case word `w` but for ASCII case.
pub open spec fn eq_ignore_case(s: Seq<char>, w: Seq<char>) -> bool {
    s.len() == w.len() && forall|k: int| 0 <= k < s.len() ==> same_ignore_case(#[trigger] s[k], w[k])
}

pub fn eq_ignore_case_exec(s: &Vec<char>, w: &Vec<char>) -> (r: bool)
    ensures
        r == eq_ignore_case(s@, w@),
{
    if s.len() != w.len() {
        return false;
    }
    let mut k: usize = 0;
    while k < s.len()
        invariant
            k <= s@.len() == w@.len(),
            forall|m: int| 0 <= m < k ==> same_ignore_case(#[trigger] s@[m], w@[m]),
        decreases s@.len() - k,
    {
        let c = s[k];
        let l = w[k];
        if !(c == l || ('A' <= c && c <= 'Z' && (c as u32) + 32 == l as u32)) {
            return false;
        }
        k = k + 1;
    }
    true
}

/// The decimal form that `f64::from_str` accepts, after its sign: digits
/// with an optional fraction, at least one digit in all, then an optional
/// exponent `e`/`E`, sign, one or more digits.
pub open spec fn is_decimal_literal(b: Seq<char>) -> bool {
    let i = digit_run(b, 0);
    let j = if i < b.len() && b[i] == '.' { digit_run(b, i + 1) } else { i };
    let frac = if i < b.len() && b[i] == '.' { j - i - 1 } else { 0 };
    let end = if j < b.len() && (b[j] == 'e' || b[j] == 'E') {
        let k = if j + 1 < b.len() && (b[j + 1] == '+' || b[j + 1] == '-') { j + 2 } else { j + 1 };
        if digit_run(b, k) > k { digit_run(b, k) } else { -1 }
    } else {
        j
    };
    i + frac > 0 && end == b.len()
}

/// What `f64::from_str` accepts: an optional sign, then `inf`, `infinity`,
/// `nan` in any case, or a decimal literal.
pub open spec fn is_float_literal(s: Seq<char>) -> bool {
    let b = if s.len() > 0 && (s[0] == '+' || s[0] == '-') { s.drop_first() } else { s };
    eq_ignore_case(b, "inf"@) || eq_ignore_case(b, "infinity"@) || eq_ignore_case(b, "nan"@)
        || is_decimal_literal(b)
}

fn is_decimal_literal_exec(b: &Vec<char>) -> (r: bool)
    ensures
        r == is_decimal_literal(b@),
{
    let n = b.len();
    let i = digit_run_exec(b, 0);
    let dot = i < n && b[i] == '.';
    let j = if dot { digit_run_exec(b, i + 1) } else { i };
    let frac: usize = if dot { j - i - 1 } else { 0 };
    let end_ok = if j < n && (b[j] == 'e' || b[j] == 'E') {
        let k = if j + 1 < n && (b[j + 1] == '+' || b[j + 1] == '-') { j + 2 } else { j + 1 };
        let m = digit_run_exec(b, k);
        m > k && m == n
    } else {
        j == n
    };
    i + frac > 0 && end_ok
}

pub fn is_float_literal_exec(s: &Vec<char>) -> (r: bool)
    ensures
        r == is_float_literal(s@),
{
    let b = if s.len() > 0 && (s[0] == '+' || s[0] == '-') {
        slice(s, 1, s.len())
    } else {
        slice(s, 0, s.len())
    };
    assert(s@.subrange(0, s@.len() as int) =~= s@);
    assert(s@.len() > 0 ==> s@.subrange(1, s@.len() as int) =~= s@.drop_first());
    eq_ignore_case_exec(&b, &chars_of("inf")) || eq_ignore_case_exec(&b, &chars_of("infinity"))
        || eq_ignore_case_exec(&b, &chars_of("nan")) || is_decimal_literal_exec(&b)
}


/// A trimmed text that is not empty has a word.
pub proof fn lemma_words_nonempty(s: Seq<char>)
    requires
        trim(s).len() > 0,
    ensures
        words(trim(s)).len() > 0,
{
    lemma_skip_spaces_bounds(s, 0);
    let lo = skip_spaces(s, 0);
    lemma_back_spaces_bounds(s, lo, s.len() as int);
    let t = trim(s);
    assert(t[0] == s[lo]);
    assert(skip_spaces(t, 0) == 0);
    lemma_skip_word_bounds(t, 0);
}

} // verus!
