//! Character-level scanning of sheet text: whitespace, tokens, unsigned
//! numbers and line boundaries, each with its mathematical definition.

use vstd::prelude::*;
use vstd::string::*;

verus! {

/// Whether `c` has the Unicode property White_Space.
pub open spec fn is_space(c: char) -> bool {
    let n = c as u32;
    ||| 0x09 <= n <= 0x0D
    ||| n == 0x20
    ||| n == 0x85
    ||| n == 0xA0
    ||| n == 0x1680
    ||| 0x2000 <= n <= 0x200A
    ||| n == 0x2028
    ||| n == 0x2029
    ||| n == 0x202F
    ||| n == 0x205F
    ||| n == 0x3000
}

/// Index of the first character at or after `i` that is not whitespace,
/// or the length of `s` if there is none.
pub open spec fn spaces_end(s: Seq<char>, i: int) -> int
    decreases s.len() - i,
{
    if 0 <= i < s.len() && is_space(s[i]) {
        spaces_end(s, i + 1)
    } else {
        i
    }
}

/// Index of the first whitespace character at or after `i`, or the length
/// of `s` if there is none.
pub open spec fn word_end(s: Seq<char>, i: int) -> int
    decreases s.len() - i,
{
    if 0 <= i < s.len() && !is_space(s[i]) {
        word_end(s, i + 1)
    } else {
        i
    }
}

/// The least index `k >= lo` such that everything in `s[k..j]` is whitespace.
pub open spec fn spaces_start(s: Seq<char>, lo: int, j: int) -> int
    decreases j - lo,
{
    if lo < j <= s.len() && is_space(s[j - 1]) {
        spaces_start(s, lo, j - 1)
    } else {
        j
    }
}

/// `s` without its leading and trailing whitespace.
pub open spec fn trimmed(s: Seq<char>) -> Seq<char> {
    let a = spaces_end(s, 0);
    let b = spaces_start(s, a, s.len() as int);
    s.subrange(a, b)
}

/// `s` without one pair of surrounding double quotes, if it has one.
pub open spec fn unquoted(s: Seq<char>) -> Seq<char> {
    if s.len() >= 2 && s[0] == '"' && s[s.len() - 1] == '"' {
        s.subrange(1, s.len() - 1)
    } else {
        s
    }
}

/// The second whitespace-separated token of `s`, if it has two.
pub open spec fn second_token(s: Seq<char>) -> Option<Seq<char>> {
    let a = spaces_end(s, 0);
    let b = word_end(s, a);
    let c = spaces_end(s, b);
    let d = word_end(s, c);
    if c < s.len() {
        Some(s.subrange(c, d))
    } else {
        None
    }
}

/// Whether `c` is one of the ASCII digits `0` to `9`.
pub open spec fn is_digit(c: char) -> bool {
    0x30 <= c as u32 <= 0x39
}

/// The number that a sequence of ASCII digits spells in base ten, the
/// empty sequence spelling zero; `None` if some character is not a digit.
pub open spec fn digits_value(s: Seq<char>) -> Option<nat>
    decreases s.len(),
{
    if s.len() == 0 {
        Some(0nat)
    } else {
        match digits_value(s.drop_last()) {
            Some(v) if is_digit(s.last()) => Some((v * 10 + (s.last() as u32 - 0x30)) as nat),
            _ => None,
        }
    }
}

/// The unsigned 32-bit number that `s` spells: an optional `+`, then one or
/// more ASCII digits whose value fits in 32 bits. Anything else is `None`.
pub open spec fn unsigned_of(s: Seq<char>) -> Option<u32> {
    let body = if s.len() > 0 && s[0] == '+' {
        s.subrange(1, s.len() as int)
    } else {
        s
    };
    if body.len() == 0 {
        None
    } else {
        match digits_value(body) {
            Some(v) if v <= u32::MAX => Some(v as u32),
            _ => None,
        }
    }
}

/// Index of the first line feed at or after `i`, or the length of `s`.
pub open spec fn line_end(s: Seq<char>, i: int) -> int
    decreases s.len() - i,
{
    if 0 <= i < s.len() && s[i] != '\n' {
        line_end(s, i + 1)
    } else {
        i
    }
}

/// The lines of `s` from index `i` on: the pieces between line feeds. A
/// line feed at the very end opens no further line.
pub open spec fn lines_from(s: Seq<char>, i: int) -> Seq<Seq<char>>
    decreases s.len() - i,
{
    if 0 <= i < s.len() {
        let e = line_end(s, i);
        if i <= e < s.len() {
            seq![s.subrange(i, e)] + lines_from(s, e + 1)
        } else {
            seq![s.subrange(i, s.len() as int)]
        }
    } else {
        Seq::empty()
    }
}

pub fn is_whitespace(c: char) -> (b: bool)
    ensures
        b == is_space(c),
{
    let n: u32 = c as u32;
    (0x09 <= n && n <= 0x0D) || n == 0x20 || n == 0x85 || n == 0xA0 || n == 0x1680 || (0x2000 <= n
        && n <= 0x200A) || n == 0x2028 || n == 0x2029 || n == 0x202F || n == 0x205F || n == 0x3000
}

/// `s` without leading and trailing whitespace.
pub fn trim<'a>(s: &'a str) -> (r: &'a str)
    ensures
        r@ == trimmed(s@),
{
    let n: usize = s.unicode_len();
    let mut a: usize = 0;
    while a < n && is_whitespace(s.get_char(a))
        invariant
            a <= n,
            n == s@.len(),
            spaces_end(s@, 0) == spaces_end(s@, a as int),
        decreases n - a,
    {
        a += 1;
    }
    let mut b: usize = n;
    while b > a && is_whitespace(s.get_char(b - 1))
        invariant
            a <= b <= n,
            n == s@.len(),
            spaces_start(s@, a as int, n as int) == spaces_start(s@, a as int, b as int),
        decreases b,
    {
        b -= 1;
    }
    s.substring_char(a, b)
}

/// Whether `s` begins with `prefix`.
pub fn starts_with(s: &str, prefix: &str) -> (b: bool)
    ensures
        b == prefix@.is_prefix_of(s@),
{
    let n: usize = s.unicode_len();
    let m: usize = prefix.unicode_len();
    if m > n {
        return false;
    }
    let mut i: usize = 0;
    while i < m
        invariant
            i <= m <= n,
            n == s@.len(),
            m == prefix@.len(),
            forall|k: int| 0 <= k < i ==> s@[k] == prefix@[k],
        decreases m - i,
    {
        if s.get_char(i) != prefix.get_char(i) {
            proof {
                assert(s@.subrange(0, m as int)[i as int] == s@[i as int]);
            }
            return false;
        }
        i += 1;
    }
    proof {
        assert(prefix@ =~= s@.subrange(0, m as int));
    }
    true
}

/// `s` from its `n`-th character on.
pub fn skip_chars<'a>(s: &'a str, n: usize) -> (r: &'a str)
    requires
        n <= s@.len(),
    ensures
        r@ == s@.subrange(n as int, s@.len() as int),
{
    let len: usize = s.unicode_len();
    s.substring_char(n, len)
}

/// `s` without one pair of surrounding double quotes, if it has one.
pub fn strip_quotes<'a>(s: &'a str) -> (r: &'a str)
    ensures
        r@ == unquoted(s@),
{
    let n: usize = s.unicode_len();
    if n >= 2 && s.get_char(0) == '"' && s.get_char(n - 1) == '"' {
        s.substring_char(1, n - 1)
    } else {
        s
    }
}

/// The second whitespace-separated token of `s`.
pub fn second_word<'a>(s: &'a str) -> (r: Option<&'a str>)
    ensures
        match r {
            Some(t) => second_token(s@) == Some(t@),
            None => second_token(s@) is None,
        },
{
    let n: usize = s.unicode_len();
    let mut a: usize = 0;
    while a < n && is_whitespace(s.get_char(a))
        invariant
            a <= n,
            n == s@.len(),
            spaces_end(s@, 0) == spaces_end(s@, a as int),
        decreases n - a,
    {
        a += 1;
    }
    let mut b: usize = a;
    while b < n && !is_whitespace(s.get_char(b))
        invariant
            a <= b <= n,
            n == s@.len(),
            word_end(s@, a as int) == word_end(s@, b as int),
        decreases n - b,
    {
        b += 1;
    }
    let mut c: usize = b;
    while c < n && is_whitespace(s.get_char(c))
        invariant
            b <= c <= n,
            n == s@.len(),
            spaces_end(s@, b as int) == spaces_end(s@, c as int),
        decreases n - c,
    {
        c += 1;
    }
    if c >= n {
        return None;
    }
    let mut d: usize = c;
    while d < n && !is_whitespace(s.get_char(d))
        invariant
            c <= d <= n,
            n == s@.len(),
            word_end(s@, c as int) == word_end(s@, d as int),
        decreases n - d,
    {
        d += 1;
    }
    Some(s.substring_char(c, d))
}

/// The unsigned 32-bit number that `s` spells, if it spells one.
pub fn parse_unsigned(s: &str) -> (r: Option<u32>)
    ensures
        r == unsigned_of(s@),
{
    let n: usize = s.unicode_len();
    let start: usize = if n > 0 && s.get_char(0) == '+' {
        1
    } else {
        0
    };
    if start == n {
        return None;
    }
    let ghost body = s@.subrange(start as int, n as int);
    let mut acc: u64 = 0;
    let mut too_big: bool = false;
    let mut i: usize = start;
    let ghost mut value: nat = 0;
    proof {
        assert(body.take(0) =~= Seq::<char>::empty());
        assert(start == 0 ==> body =~= s@);
    }
    while i < n
        invariant
            start <= i <= n,
            n == s@.len(),
            body == s@.subrange(start as int, n as int),
            body.len() > 0,
            body == if s@.len() > 0 && s@[0] == '+' { s@.subrange(1, s@.len() as int) } else { s@ },
            digits_value(body.take(i - start)) == Some(value),
            too_big ==> value > u32::MAX,
            !too_big ==> value == acc && acc <= u32::MAX,
        decreases n - i,
    {
        let c: char = s.get_char(i);
        let code: u32 = c as u32;
        let ghost next = body.take(i - start + 1);
        proof {
            assert(next.drop_last() =~= body.take(i - start));
            assert(next.last() == c);
        }
        if code < 0x30 || code > 0x39 {
            proof {
                lemma_digits_prefix(body, i - start + 1);
            }
            return None;
        }
        let d: u64 = (code - 0x30) as u64;
        proof {
            value = (value * 10 + d) as nat;
        }
        if !too_big {
            acc = acc * 10 + d;
            if acc > 0xFFFF_FFFF {
                too_big = true;
            }
        }
        i += 1;
    }
    proof {
        assert(body.take(n - start) =~= body);
    }
    if too_big {
        None
    } else {
        Some(acc as u32)
    }
}

/// A sequence with a prefix that is not all digits is not all digits.
pub proof fn lemma_digits_prefix(s: Seq<char>, k: int)
    requires
        0 <= k <= s.len(),
        digits_value(s.take(k)) is None,
    ensures
        digits_value(s) is None,
    decreases s.len(),
{
    if k < s.len() {
        assert(s.drop_last().take(k) =~= s.take(k));
        lemma_digits_prefix(s.drop_last(), k);
    } else {
        assert(s.take(k) =~= s);
    }
}

/// Index of the first line feed of `text` at or after `from`.
pub fn find_line_end(text: &str, from: usize, len: usize) -> (e: usize)
    requires
        from <= len,
        len == text@.len(),
    ensures
        e == line_end(text@, from as int),
        from <= e <= len,
{
    let mut e: usize = from;
    while e < len && text.get_char(e) != '\n'
        invariant
            from <= e <= len,
            len == text@.len(),
            line_end(text@, from as int) == line_end(text@, e as int),
        decreases len - e,
    {
        e += 1;
    }
    e
}

/// What `spaces_end` finds: everything from `i` up to it is whitespace,
/// and what stands at it, if anything, is not.
pub proof fn lemma_spaces_end(s: Seq<char>, i: int)
    requires
        0 <= i <= s.len(),
    ensures
        i <= spaces_end(s, i) <= s.len(),
        forall|k: int| i <= k < spaces_end(s, i) ==> is_space(s[k]),
        spaces_end(s, i) < s.len() ==> !is_space(s[spaces_end(s, i)]),
    decreases s.len() - i,
{
    if i < s.len() && is_space(s[i]) {
        lemma_spaces_end(s, i + 1);
    }
}

/// What `word_end` finds: nothing from `i` up to it is whitespace, and
/// what stands at it, if anything, is.
pub proof fn lemma_word_end(s: Seq<char>, i: int)
    requires
        0 <= i <= s.len(),
    ensures
        i <= word_end(s, i) <= s.len(),
        forall|k: int| i <= k < word_end(s, i) ==> !is_space(s[k]),
        word_end(s, i) < s.len() ==> is_space(s[word_end(s, i)]),
    decreases s.len() - i,
{
    if i < s.len() && !is_space(s[i]) {
        lemma_word_end(s, i + 1);
    }
}

/// What `spaces_start` finds: everything from it up to `j` is whitespace,
/// and what stands before it, if it lies above `lo`, is not.
pub proof fn lemma_spaces_start(s: Seq<char>, lo: int, j: int)
    requires
        0 <= lo <= j <= s.len(),
    ensures
        lo <= spaces_start(s, lo, j) <= j,
        forall|k: int| spaces_start(s, lo, j) <= k < j ==> is_space(s[k]),
        lo < spaces_start(s, lo, j) ==> !is_space(s[spaces_start(s, lo, j) - 1]),
    decreases j - lo,
{
    if lo < j && is_space(s[j - 1]) {
        lemma_spaces_start(s, lo, j - 1);
    }
}

/// What `line_end` finds: no line feed from `i` up to it, and a line feed
/// at it unless the text ends there.
pub proof fn lemma_line_end_bounds(s: Seq<char>, i: int)
    requires
        0 <= i <= s.len(),
    ensures
        i <= line_end(s, i) <= s.len(),
        line_end(s, i) < s.len() ==> s[line_end(s, i)] == '\n',
        forall|k: int| i <= k < line_end(s, i) ==> s[k] != '\n',
    decreases s.len() - i,
{
    if i < s.len() && s[i] != '\n' {
        lemma_line_end_bounds(s, i + 1);
    }
}

/// Trimming cuts whitespace off both ends and nothing else: the result
/// is a piece of `s`, all that lies before and after it is whitespace, and
/// it neither begins nor ends with whitespace.
pub proof fn lemma_trimmed(s: Seq<char>)
    ensures
        ({
            let a = spaces_end(s, 0);
            let b = spaces_start(s, a, s.len() as int);
            &&& 0 <= a <= b <= s.len()
            &&& trimmed(s) == s.subrange(a, b)
            &&& forall|k: int| 0 <= k < a ==> is_space(s[k])
            &&& forall|k: int| b <= k < s.len() ==> is_space(s[k])
            &&& trimmed(s).len() > 0 ==> !is_space(trimmed(s).first()) && !is_space(
                trimmed(s).last(),
            )
        }),
{
    lemma_spaces_end(s, 0);
    lemma_spaces_start(s, spaces_end(s, 0), s.len() as int);
}

/// A token, where there is a second one, is not empty and holds no
/// whitespace.
pub proof fn lemma_second_token(s: Seq<char>)
    requires
        second_token(s) is Some,
    ensures
        second_token(s)->0.len() > 0,
        forall|k: int| 0 <= k < second_token(s)->0.len() ==> !is_space(second_token(s)->0[k]),
{
    lemma_spaces_end(s, 0);
    let a = spaces_end(s, 0);
    lemma_word_end(s, a);
    let b = word_end(s, a);
    lemma_spaces_end(s, b);
    let c = spaces_end(s, b);
    lemma_word_end(s, c);
}

/// Where a line ends does not depend on what stands before it: cutting
/// off the first `i` characters moves every line end down by `i`.
pub proof fn lemma_line_end_shift(s: Seq<char>, i: int, k: int)
    requires
        0 <= i,
        0 <= k,
        i + k <= s.len(),
    ensures
        line_end(s, i + k) == i + line_end(s.subrange(i, s.len() as int), k),
    decreases s.len() - i - k,
{
    let t = s.subrange(i, s.len() as int);
    if i + k < s.len() && s[i + k] != '\n' {
        assert(t[k] == s[i + k]);
        lemma_line_end_shift(s, i, k + 1);
    } else if i + k < s.len() {
        assert(t[k] == s[i + k]);
    }
}

/// The lines of a text from some index on are the lines of what remains
/// when everything before a line's start is cut off.
pub proof fn lemma_lines_shift(s: Seq<char>, i: int, k: int)
    requires
        0 <= i,
        0 <= k,
        i + k <= s.len(),
    ensures
        lines_from(s, i + k) == lines_from(s.subrange(i, s.len() as int), k),
    decreases s.len() - i - k,
{
    let t = s.subrange(i, s.len() as int);
    if i + k < s.len() {
        lemma_line_end_shift(s, i, k);
        lemma_line_end_bounds(s, i + k);
        lemma_line_end_bounds(t, k);
        let e = line_end(s, i + k);
        let f = line_end(t, k);
        if e < s.len() {
            assert(s.subrange(i + k, e) =~= t.subrange(k, f));
            lemma_lines_shift(s, i, f + 1);
        } else {
            assert(s.subrange(i + k, s.len() as int) =~= t.subrange(k, t.len() as int));
        }
    }
}

} // verus!
