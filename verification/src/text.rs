//! Text primitives shared by the rest of the crate: decimal numbers,
//! prefixes, suffixes and ordering of strings, all stated over `Seq<char>`.

use vstd::prelude::*;
use vstd::string::*;

verus! {

/// The text of each string of `v`.
pub open spec fn texts(v: Seq<String>) -> Seq<Seq<char>> {
    v.map_values(|s: String| s@)
}

/// Appends a string to a list and says what the list then reads.
pub fn push_text(list: &mut Vec<String>, item: String)
    ensures
        texts(final(list)@) == texts(old(list)@).push(item@),
{
    list.push(item);
    assert(texts(list@) =~= texts(old(list)@).push(item@));
}

/// `c` is one of the ten ASCII digits.
pub open spec fn is_digit(c: char) -> bool {
    '0' <= c && c <= '9'
}

/// The number that the digit `c` stands for.
pub open spec fn digit_value(c: char) -> nat {
    (c as int - '0' as int) as nat
}

/// The digit for `d`, which is below ten.
pub open spec fn digit_char(d: nat) -> char {
    (d + '0' as nat) as char
}

/// The decimal numeral of `n`, without sign or leading zeros.
pub open spec fn decimal(n: nat) -> Seq<char>
    decreases n,
{
    if n < 10 {
        seq![digit_char(n)]
    } else {
        decimal(n / 10).push(digit_char(n % 10))
    }
}

/// Every character of `s` is a digit.
pub open spec fn all_digits(s: Seq<char>) -> bool {
    forall|i: int| 0 <= i < s.len() ==> is_digit(#[trigger] s[i])
}

/// The value of a digit string read in base ten; zero for the empty string.
pub open spec fn decimal_value(s: Seq<char>) -> nat
    decreases s.len(),
{
    if s.len() == 0 {
        0
    } else {
        decimal_value(s.drop_last()) * 10 + digit_value(s.last())
    }
}

/// The digits of a numeral: the text itself, or what follows one leading `+`.
pub open spec fn numeral_digits(s: Seq<char>) -> Seq<char> {
    if s.len() > 0 && s[0] == '+' {
        s.subrange(1, s.len() as int)
    } else {
        s
    }
}

/// What reading `s` as an unsigned decimal number of at most `max` gives:
/// an optional `+`, then one digit or more, the value not above `max`.
pub open spec fn parsed_decimal(s: Seq<char>, max: nat) -> Option<nat> {
    let body = numeral_digits(s);
    if body.len() > 0 && all_digits(body) && decimal_value(body) <= max {
        Some(decimal_value(body))
    } else {
        None
    }
}

/// `s` ends with `suffix`.
pub open spec fn has_suffix(s: Seq<char>, suffix: Seq<char>) -> bool {
    suffix.len() <= s.len() && s.subrange(s.len() - suffix.len(), s.len() as int) == suffix
}

/// `s` starts with `prefix`.
pub open spec fn has_prefix(s: Seq<char>, prefix: Seq<char>) -> bool {
    prefix.len() <= s.len() && s.subrange(0, prefix.len() as int) == prefix
}

/// `a` comes before `b`, or equals it, in the order of dictionaries over code points.
pub open spec fn lex_le(a: Seq<char>, b: Seq<char>) -> bool
    decreases a.len(),
{
    if a.len() == 0 {
        true
    } else if b.len() == 0 {
        false
    } else if a[0] != b[0] {
        a[0] < b[0]
    } else {
        lex_le(a.drop_first(), b.drop_first())
    }
}

/// `String::push` of std appends the character to the end of the string.
pub assume_specification[ String::push ](s: &mut String, c: char)
    ensures
        final(s)@ == old(s)@.push(c),
;

/// A longer prefix of a digit string never has a smaller value.
pub proof fn lemma_decimal_value_prefix(s: Seq<char>, i: int)
    requires
        0 <= i <= s.len(),
    ensures
        decimal_value(s.take(i)) <= decimal_value(s),
    decreases s.len(),
{
    if i == s.len() {
        assert(s.take(i) == s);
    } else {
        assert(s.drop_last().take(i) == s.take(i));
        lemma_decimal_value_prefix(s.drop_last(), i);
    }
}

/// Appends the decimal numeral of `n` to `out`.
pub fn push_decimal(out: &mut String, n: u64)
    ensures
        final(out)@ == old(out)@ + decimal(n as nat),
{
    let mut digits: Vec<char> = Vec::new();
    let mut rest: u64 = n;
    while rest >= 10
        invariant
            forall|tail: Seq<char>| #[trigger]
                (decimal(rest as nat) + digits@.reverse() + tail) == decimal(n as nat) + tail,
        decreases rest,
    {
        let d: u8 = (rest % 10) as u8;
        let c: char = (d + 48u8) as char;
        let ghost before = digits@;
        let ghost prev = rest;
        digits.push(c);
        rest = rest / 10;
        proof {
            assert(c == digit_char((prev % 10) as nat));
            assert(decimal(prev as nat) == decimal(rest as nat).push(c));
            assert(digits@.reverse() == seq![c] + before.reverse());
            assert forall|tail: Seq<char>| #[trigger]
                (decimal(rest as nat) + digits@.reverse() + tail) == decimal(n as nat) + tail by {
                assert(decimal(rest as nat) + digits@.reverse() + tail == decimal(prev as nat)
                    + before.reverse() + tail);
            }
        }
    }
    let first: char = ((rest as u8) + 48u8) as char;
    out.push(first);
    let ghost start = old(out)@ + decimal(rest as nat);
    proof {
        assert(decimal(rest as nat) == seq![digit_char(rest as nat)]);
        assert(out@ == start);
        assert(decimal(rest as nat) + digits@.reverse() + Seq::<char>::empty() == decimal(
            n as nat,
        ) + Seq::<char>::empty());
        assert(decimal(rest as nat) + digits@.reverse() == decimal(n as nat));
    }
    let mut k: usize = digits.len();
    while k > 0
        invariant
            k <= digits.len(),
            out@ == start + digits@.reverse().take(digits.len() - k),
        decreases k,
    {
        k = k - 1;
        let c: char = digits[k];
        let ghost before = out@;
        out.push(c);
        proof {
            let r = digits@.reverse();
            let j = digits.len() - k - 1;
            assert(r[j] == c);
            assert(r.take(j + 1) == r.take(j).push(c));
            assert(out@ == start + r.take(j + 1));
        }
    }
    proof {
        assert(digits@.reverse().take(digits.len() as int) == digits@.reverse());
        assert(out@ == old(out)@ + (decimal(rest as nat) + digits@.reverse()));
    }
}

/// The decimal numeral of `n`.
pub fn decimal_string(n: u64) -> (out: String)
    ensures
        out@ == decimal(n as nat),
{
    let mut out = String::new();
    push_decimal(&mut out, n);
    assert(Seq::<char>::empty() + decimal(n as nat) == decimal(n as nat));
    out
}

/// Reads `s` as an unsigned decimal number no larger than `max`.
pub fn parse_decimal(s: &str, max: u32) -> (out: Option<u32>)
    ensures
        out is Some <==> parsed_decimal(s@, max as nat) is Some,
        out is Some ==> out->0 as nat == parsed_decimal(s@, max as nat)->0,
{
    let n: usize = s.unicode_len();
    if n == 0 {
        return None;
    }
    let start: usize = if s.get_char(0) == '+' { 1 } else { 0 };
    if start == n {
        return None;
    }
    let ghost body = numeral_digits(s@);
    assert(body == s@.subrange(start as int, n as int));
    let mut acc: u64 = 0;
    let mut i: usize = start;
    while i < n
        invariant
            start <= i <= n,
            n == s@.len(),
            body == s@.subrange(start as int, n as int),
            body == numeral_digits(s@),
            body.len() > 0,
            acc as nat == decimal_value(body.take(i - start)),
            acc <= max,
            all_digits(body.take(i - start)),
        decreases n - i,
    {
        let c: char = s.get_char(i);
        let ghost pre = body.take(i - start);
        let ghost cur = body.take(i - start + 1);
        proof {
            assert(cur.drop_last() == pre);
            assert(cur.last() == c);
            assert(body[i - start] == c);
        }
        if !(c >= '0' && c <= '9') {
            assert(!all_digits(body));
            return None;
        }
        let d: u64 = ((c as u8) - 48u8) as u64;
        assert(d as nat == digit_value(c));
        let next: u64 = acc * 10 + d;
        proof {
            assert(next as nat == decimal_value(cur));
            lemma_decimal_value_prefix(body, i - start + 1);
        }
        if next > max as u64 {
            return None;
        }
        proof {
            assert forall|j: int| 0 <= j < cur.len() implies is_digit(#[trigger] cur[j]) by {
                if j < pre.len() {
                    assert(cur[j] == pre[j]);
                }
            }
        }
        acc = next;
        i = i + 1;
    }
    assert(body.take(n - start) == body);
    Some(acc as u32)
}

/// Whether `s` ends with `suffix`.
pub fn ends_with(s: &str, suffix: &str) -> (out: bool)
    ensures
        out == has_suffix(s@, suffix@),
{
    let n: usize = s.unicode_len();
    let m: usize = suffix.unicode_len();
    if m > n {
        return false;
    }
    let mut i: usize = 0;
    while i < m
        invariant
            i <= m <= n,
            n == s@.len(),
            m == suffix@.len(),
            forall|j: int| 0 <= j < i ==> s@[n - m + j] == #[trigger] suffix@[j],
        decreases m - i,
    {
        if s.get_char(n - m + i) != suffix.get_char(i) {
            assert(s@.subrange(n - m, n as int)[i as int] != suffix@[i as int]);
            return false;
        }
        i = i + 1;
    }
    assert(s@.subrange(n - m, n as int) =~= suffix@);
    true
}

/// Whether `s` starts with `prefix`.
pub fn starts_with(s: &str, prefix: &str) -> (out: bool)
    ensures
        out == has_prefix(s@, prefix@),
{
    let n: usize = s.unicode_len();
    let m: usize = prefix.unicode_len();
    if m > n {
        return false;
    }
    let mut i: usize = 0;
    while i < m
        invariant
            i <= m <= n,
            n == s@.len(),
            m == prefix@.len(),
            forall|j: int| 0 <= j < i ==> s@[j] == #[trigger] prefix@[j],
        decreases m - i,
    {
        if s.get_char(i) != prefix.get_char(i) {
            assert(s@.subrange(0, m as int)[i as int] != prefix@[i as int]);
            return false;
        }
        i = i + 1;
    }
    assert(s@.subrange(0, m as int) =~= prefix@);
    true
}

/// Whether `a` sorts before `b` or equals it.
pub fn sorts_before(a: &str, b: &str) -> (out: bool)
    ensures
        out == lex_le(a@, b@),
{
    let na: usize = a.unicode_len();
    let nb: usize = b.unicode_len();
    let mut i: usize = 0;
    assert(a@.skip(0) == a@ && b@.skip(0) == b@);
    loop
        invariant
            i <= na,
            i <= nb,
            na == a@.len(),
            nb == b@.len(),
            lex_le(a@, b@) == lex_le(a@.skip(i as int), b@.skip(i as int)),
        decreases na - i,
    {
        if i == na {
            return true;
        }
        if i == nb {
            return false;
        }
        let ca: char = a.get_char(i);
        let cb: char = b.get_char(i);
        if ca != cb {
            return ca < cb;
        }
        proof {
            assert(a@.skip(i as int).drop_first() == a@.skip(i + 1));
            assert(b@.skip(i as int).drop_first() == b@.skip(i + 1));
        }
        i = i + 1;
    }
}

/// The dictionary order relates any two strings one way or the other.
pub proof fn lemma_lex_le_total(a: Seq<char>, b: Seq<char>)
    ensures
        lex_le(a, b) || lex_le(b, a),
    decreases a.len(),
{
    if a.len() > 0 && b.len() > 0 && a[0] == b[0] {
        lemma_lex_le_total(a.drop_first(), b.drop_first());
    }
}

/// The dictionary order is transitive.
pub proof fn lemma_lex_le_trans(a: Seq<char>, b: Seq<char>, c: Seq<char>)
    requires
        lex_le(a, b),
        lex_le(b, c),
    ensures
        lex_le(a, c),
    decreases a.len(),
{
    if a.len() > 0 && b.len() > 0 && c.len() > 0 && a[0] == b[0] && b[0] == c[0] {
        lemma_lex_le_trans(a.drop_first(), b.drop_first(), c.drop_first());
    }
}

/// Whether `a` and `b` hold the same text.
pub fn same_text(a: &str, b: &str) -> (out: bool)
    ensures
        out == (a@ == b@),
{
    let n: usize = a.unicode_len();
    if n != b.unicode_len() {
        return false;
    }
    let mut i: usize = 0;
    while i < n
        invariant
            i <= n,
            n == a@.len(),
            n == b@.len(),
            forall|j: int| 0 <= j < i ==> a@[j] == #[trigger] b@[j],
        decreases n - i,
    {
        if a.get_char(i) != b.get_char(i) {
            return false;
        }
        i = i + 1;
    }
    assert(a@ =~= b@);
    true
}

/// `s` without every leading repetition of `pattern`.
pub open spec fn without_prefixes(s: Seq<char>, pattern: Seq<char>) -> Seq<char>
    decreases s.len(),
{
    if pattern.len() > 0 && has_prefix(s, pattern) {
        without_prefixes(s.skip(pattern.len() as int), pattern)
    } else {
        s
    }
}

/// `s` without every trailing repetition of `pattern`.
pub open spec fn without_suffixes(s: Seq<char>, pattern: Seq<char>) -> Seq<char>
    decreases s.len(),
{
    if pattern.len() > 0 && has_suffix(s, pattern) {
        without_suffixes(s.take(s.len() - pattern.len()), pattern)
    } else {
        s
    }
}

fn matches_at(s: &str, at: usize, pattern: &str) -> (out: bool)
    requires
        at <= s@.len(),
    ensures
        out == (at + pattern@.len() <= s@.len() && s@.subrange(
            at as int,
            at + pattern@.len(),
        ) == pattern@),
{
    let n: usize = s.unicode_len();
    let m: usize = pattern.unicode_len();
    if m > n - at {
        return false;
    }
    let mut i: usize = 0;
    while i < m
        invariant
            i <= m,
            at + m <= n,
            n == s@.len(),
            m == pattern@.len(),
            forall|j: int| 0 <= j < i ==> s@[at + j] == #[trigger] pattern@[j],
        decreases m - i,
    {
        if s.get_char(at + i) != pattern.get_char(i) {
            assert(s@.subrange(at as int, at + m)[i as int] != pattern@[i as int]);
            return false;
        }
        i = i + 1;
    }
    assert(s@.subrange(at as int, at + m) =~= pattern@);
    true
}

/// `s` without every leading repetition of `pattern`.
pub fn trim_start_matches(s: &str, pattern: &str) -> (out: String)
    ensures
        out@ == without_prefixes(s@, pattern@),
{
    let n: usize = s.unicode_len();
    let m: usize = pattern.unicode_len();
    let mut at: usize = 0;
    assert(s@.skip(0) == s@);
    while m > 0 && matches_at(s, at, pattern)
        invariant
            at <= n,
            n == s@.len(),
            m == pattern@.len(),
            without_prefixes(s@, pattern@) == without_prefixes(s@.skip(at as int), pattern@),
        decreases n - at,
    {
        proof {
            let rest = s@.skip(at as int);
            assert(rest.subrange(0, m as int) == s@.subrange(at as int, at + m));
            assert(rest.skip(m as int) == s@.skip(at + m));
        }
        at = at + m;
    }
    proof {
        let rest = s@.skip(at as int);
        if m > 0 && m <= rest.len() {
            assert(rest.subrange(0, m as int) == s@.subrange(at as int, at + m));
        }
        assert(rest == s@.subrange(at as int, n as int));
    }
    String::from_str(s.substring_char(at, n))
}

/// `s` without every trailing repetition of `pattern`.
pub fn trim_end_matches(s: &str, pattern: &str) -> (out: String)
    ensures
        out@ == without_suffixes(s@, pattern@),
{
    let n: usize = s.unicode_len();
    let m: usize = pattern.unicode_len();
    let mut end: usize = n;
    assert(s@.take(n as int) == s@);
    while m > 0 && end >= m && matches_at(s, end - m, pattern)
        invariant
            end <= n,
            n == s@.len(),
            m == pattern@.len(),
            without_suffixes(s@, pattern@) == without_suffixes(s@.take(end as int), pattern@),
        decreases end,
    {
        proof {
            let head = s@.take(end as int);
            assert(head.subrange(head.len() - m, head.len() as int) == s@.subrange(
                end - m,
                end as int,
            ));
            assert(head.take(head.len() - m) == s@.take(end - m));
        }
        end = end - m;
    }
    proof {
        let head = s@.take(end as int);
        if m > 0 && end >= m {
            assert(head.subrange(head.len() - m, head.len() as int) == s@.subrange(
                end - m,
                end as int,
            ));
        }
        assert(head == s@.subrange(0, end as int));
    }
    String::from_str(s.substring_char(0, end))
}

/// The numeral of a number is made of digits, starts with none of the signs,
/// and has the number as its value.
pub proof fn lemma_decimal_is_numeral(n: nat)
    ensures
        decimal(n).len() > 0,
        all_digits(decimal(n)),
        decimal_value(decimal(n)) == n,
    decreases n,
{
    if n < 10 {
        let s = decimal(n);
        assert(s.len() == 1);
        assert(s[0] == digit_char(n));
        assert(s.drop_last().len() == 0);
        assert(decimal_value(s) == decimal_value(s.drop_last()) * 10 + digit_value(s.last()));
    } else {
        lemma_decimal_is_numeral(n / 10);
        let head = decimal(n / 10);
        let s = head.push(digit_char(n % 10));
        assert(s.drop_last() == head);
        assert(s.last() == digit_char(n % 10));
        assert forall|i: int| 0 <= i < s.len() implies is_digit(#[trigger] s[i]) by {
            if i < head.len() {
                assert(s[i] == head[i]);
            }
        }
        assert(decimal_value(s) == decimal_value(head) * 10 + digit_value(s.last()));
    }
}

/// Reading the numeral of a number gives the number back.
pub proof fn lemma_decimal_parses(n: nat, max: nat)
    requires
        n <= max,
    ensures
        parsed_decimal(decimal(n), max) == Some(n),
{
    lemma_decimal_is_numeral(n);
    let s = decimal(n);
    assert(is_digit(s[0]));
    assert(numeral_digits(s) == s);
}

} // verus!
