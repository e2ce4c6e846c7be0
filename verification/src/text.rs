//! Character-level utilities: decimal rendering and parsing of sequence
//! numbers, searching for a separator, and the synthesized
//! `"mailbox:sequence"` message identifiers built from them.

use vstd::prelude::*;
use vstd::string::*;

verus! {

/// A decimal digit, `'0'` through `'9'`.
pub open spec fn is_digit_char(c: char) -> bool {
    '0' <= c && c <= '9'
}

/// The digit character for a value in `0..=9`.
pub open spec fn digit_char(d: int) -> char {
    if d == 0 {
        '0'
    } else if d == 1 {
        '1'
    } else if d == 2 {
        '2'
    } else if d == 3 {
        '3'
    } else if d == 4 {
        '4'
    } else if d == 5 {
        '5'
    } else if d == 6 {
        '6'
    } else if d == 7 {
        '7'
    } else if d == 8 {
        '8'
    } else {
        '9'
    }
}

/// The numeric value of a digit character.
pub open spec fn digit_val(c: char) -> int {
    c as int - '0' as int
}

/// The canonical decimal rendering of a natural number, most significant
/// digit first, without leading zeros (except for zero itself).
pub open spec fn dec_digits(n: nat) -> Seq<char>
    decreases n,
{
    if n < 10 {
        seq![digit_char(n as int)]
    } else {
        dec_digits(n / 10).push(digit_char((n % 10) as int))
    }
}

/// The value denoted by a sequence of digit characters (empty reads as 0).
pub open spec fn dec_val(s: Seq<char>) -> int
    decreases s.len(),
{
    if s.len() == 0 {
        0
    } else {
        dec_val(s.drop_last()) * 10 + digit_val(s.last())
    }
}

/// Every character of `s` is a decimal digit.
pub open spec fn all_digits(s: Seq<char>) -> bool {
    forall|i: int| 0 <= i < s.len() ==> is_digit_char(s[i])
}

pub proof fn lemma_dec_digits_shape(n: nat)
    ensures
        dec_digits(n).len() >= 1,
        all_digits(dec_digits(n)),
    decreases n,
{
    if n >= 10 {
        lemma_dec_digits_shape(n / 10);
        assert forall|i: int| 0 <= i < dec_digits(n).len() implies is_digit_char(
            dec_digits(n)[i],
        ) by {
            if i < dec_digits(n / 10).len() {
                assert(dec_digits(n)[i] == dec_digits(n / 10)[i]);
            }
        }
    }
}

/// Reading back the canonical rendering of `n` yields `n`.
pub proof fn lemma_dec_val_of_digits(n: nat)
    ensures
        dec_val(dec_digits(n)) == n,
    decreases n,
{
    if n < 10 {
        assert(dec_digits(n).drop_last() =~= Seq::<char>::empty());
        assert(digit_val(digit_char(n as int)) == n);
        assert(dec_val(dec_digits(n)) == dec_val(dec_digits(n).drop_last()) * 10 + digit_val(
            dec_digits(n).last(),
        ));
    } else {
        lemma_dec_val_of_digits(n / 10);
        vstd::arithmetic::div_mod::lemma_fundamental_div_mod(n as int, 10);
        let s = dec_digits(n);
        assert(s.drop_last() =~= dec_digits(n / 10));
        assert(s.last() == digit_char((n % 10) as int));
        assert(digit_val(digit_char((n % 10) as int)) == n % 10);
    }
}

/// The decimal rendering is injective.
pub proof fn lemma_dec_digits_injective(a: nat, b: nat)
    requires
        dec_digits(a) == dec_digits(b),
    ensures
        a == b,
{
    lemma_dec_val_of_digits(a);
    lemma_dec_val_of_digits(b);
}

pub proof fn lemma_dec_val_take_succ(s: Seq<char>, m: int)
    requires
        0 <= m < s.len(),
    ensures
        dec_val(s.take(m + 1)) == dec_val(s.take(m)) * 10 + digit_val(s[m]),
{
    assert(s.take(m + 1).drop_last() =~= s.take(m));
    assert(s.take(m + 1).last() == s[m]);
}

pub proof fn lemma_dec_val_nonneg(s: Seq<char>)
    requires
        all_digits(s),
    ensures
        dec_val(s) >= 0,
    decreases s.len(),
{
    if s.len() > 0 {
        assert(all_digits(s.drop_last()));
        lemma_dec_val_nonneg(s.drop_last());
    }
}

/// A digit string reads as at least the value of any of its prefixes.
pub proof fn lemma_dec_val_prefix_le(s: Seq<char>, m: int)
    requires
        all_digits(s),
        0 <= m <= s.len(),
    ensures
        dec_val(s.take(m)) <= dec_val(s),
    decreases s.len() - m,
{
    if m == s.len() {
        assert(s.take(m) =~= s);
    } else {
        lemma_dec_val_take_succ(s, m);
        assert(all_digits(s.take(m)));
        lemma_dec_val_nonneg(s.take(m));
        lemma_dec_val_prefix_le(s, m + 1);
    }
}

/// The digit character for `d`, as a one-character string slice.
pub fn digit_to_str(d: u64) -> (r: &'static str)
    requires
        d < 10,
    ensures
        r@ == seq![digit_char(d as int)],
{
    proof {
        reveal_strlit("0");
        reveal_strlit("1");
        reveal_strlit("2");
        reveal_strlit("3");
        reveal_strlit("4");
        reveal_strlit("5");
        reveal_strlit("6");
        reveal_strlit("7");
        reveal_strlit("8");
        reveal_strlit("9");
    }
    let r = match d {
        0 => "0",
        1 => "1",
        2 => "2",
        3 => "3",
        4 => "4",
        5 => "5",
        6 => "6",
        7 => "7",
        8 => "8",
        _ => "9",
    };
    proof {
        assert(r@ =~= seq![digit_char(d as int)]);
    }
    r
}

/// Renders `n` in decimal.
pub fn u64_to_dec(n: u64) -> (r: String)
    ensures
        r@ == dec_digits(n as nat),
    decreases n,
{
    if n < 10 {
        digit_to_str(n).to_owned()
    } else {
        let mut s = u64_to_dec(n / 10);
        s.append(digit_to_str(n % 10));
        proof {
            assert(s@ =~= dec_digits(n as nat));
        }
        s
    }
}

/// The least index `>= i` where `c` occurs in `s`, or `s.len()`.
pub open spec fn first_at(s: Seq<char>, c: char, i: int) -> int
    recommends
        0 <= i <= s.len(),
    decreases s.len() - i when 0 <= i <= s.len()
{
    if i >= s.len() {
        s.len() as int
    } else if s[i] == c {
        i
    } else {
        first_at(s, c, i + 1)
    }
}

/// The least index where `c` occurs in `s`, or `s.len()`.
pub open spec fn first_of(s: Seq<char>, c: char) -> int {
    first_at(s, c, 0)
}

/// Whether `c` occurs anywhere in `s`.
pub open spec fn has_char(s: Seq<char>, c: char) -> bool {
    exists|i: int| 0 <= i < s.len() && s[i] == c
}

pub proof fn lemma_first_at_props(s: Seq<char>, c: char, i: int)
    requires
        0 <= i <= s.len(),
    ensures
        i <= first_at(s, c, i) <= s.len(),
        first_at(s, c, i) < s.len() ==> s[first_at(s, c, i)] == c,
        forall|j: int| i <= j < first_at(s, c, i) ==> s[j] != c,
    decreases s.len() - i,
{
    if i < s.len() && s[i] != c {
        lemma_first_at_props(s, c, i + 1);
    }
}

/// Finds the first occurrence of `c` at or after position `from`.
pub fn find_char_from(s: &str, c: char, from: usize) -> (r: usize)
    requires
        from <= s@.len(),
    ensures
        r as int == first_at(s@, c, from as int),
{
    let n = s.unicode_len();
    let mut i: usize = from;
    while i < n
        invariant
            from <= i <= n,
            n == s@.len(),
            first_at(s@, c, from as int) == first_at(s@, c, i as int),
        decreases n - i,
    {
        let ch = s.get_char(i);
        if ch == c {
            return i;
        }
        i = i + 1;
    }
    n
}

/// Finds the first occurrence of `c` in `s`, or the length of `s`.
pub fn find_char(s: &str, c: char) -> (r: usize)
    ensures
        r as int == first_of(s@, c),
{
    find_char_from(s, c, 0)
}

/// Whether `c` occurs in `s`.
pub fn contains_char(s: &str, c: char) -> (r: bool)
    ensures
        r == has_char(s@, c),
{
    let n = s.unicode_len();
    let i = find_char(s, c);
    proof {
        lemma_first_at_props(s@, c, 0);
    }
    i < n
}

/// The synthesized identifier of the message at 1-based position `seq_no`
/// of `mailbox`: the mailbox name, a colon, and the decimal position.
pub open spec fn uid_chars(mailbox: Seq<char>, seq_no: int) -> Seq<char>
    recommends
        seq_no >= 0,
{
    mailbox + seq![':'] + dec_digits(seq_no as nat)
}

/// Builds the synthesized message identifier for a mailbox position.
pub fn make_uid(mailbox: &str, seq_no: usize) -> (r: String)
    ensures
        r@ == uid_chars(mailbox@, seq_no as int),
{
    let mut s = mailbox.to_owned();
    s.append(":");
    s.append(u64_to_dec(seq_no as u64).as_str());
    proof {
        reveal_strlit(":");
        assert(s@ =~= uid_chars(mailbox@, seq_no as int));
    }
    s
}

/// How a message identifier is resolved to a location: the part before the
/// first colon names the mailbox; the digits between the first and second
/// colon (or the end) give the sequence position. `None` when there is no
/// colon, the middle segment is empty or not all digits, or the value does
/// not fit in `usize`.
pub open spec fn uid_parse(s: Seq<char>) -> Option<(Seq<char>, int)> {
    let i = first_of(s, ':');
    if i >= s.len() {
        None
    } else {
        let j = first_at(s, ':', i + 1);
        let digits = s.subrange(i + 1, j);
        if digits.len() > 0 && all_digits(digits) && dec_val(digits) <= usize::MAX as int {
            Some((s.take(i), dec_val(digits)))
        } else {
            None
        }
    }
}

/// Resolves a message identifier to its `(mailbox, sequence)` location.
pub fn parse_uid(uid: &str) -> (r: Option<(String, usize)>)
    ensures
        match r {
            Some(p) => uid_parse(uid@) == Some((p.0@, p.1 as int)),
            None => uid_parse(uid@) is None,
        },
{
    let n = uid.unicode_len();
    let i = find_char(uid, ':');
    if i >= n {
        return None;
    }
    let j = find_char_from(uid, ':', i + 1);
    proof {
        lemma_first_at_props(uid@, ':', i as int + 1);
    }
    let ghost digits = uid@.subrange(i as int + 1, j as int);
    if j == i + 1 {
        proof {
            assert(digits.len() == 0);
        }
        return None;
    }
    let mut acc: usize = 0;
    let mut k: usize = i + 1;
    while k < j
        invariant
            i + 1 <= k <= j <= n,
            n == uid@.len(),
            i as int == first_of(uid@, ':'),
            i < n,
            digits == uid@.subrange(i + 1, j as int),
            j as int == first_at(uid@, ':', i as int + 1),
            forall|m: int| i + 1 <= m < k ==> is_digit_char(uid@[m]),
            acc as int == dec_val(digits.take(k - (i + 1))),
        decreases j - k,
    {
        let ch = uid.get_char(k);
        if !('0' <= ch && ch <= '9') {
            proof {
                assert(digits[k - (i + 1)] == uid@[k as int]);
                assert(!all_digits(digits)) by {
                    assert(!is_digit_char(digits[k - (i + 1)]));
                }
            }
            return None;
        }
        let d: usize = (ch as u32 as usize) - 48;
        proof {
            assert(digits[k - (i + 1)] == uid@[k as int]);
            assert(digit_val(ch) == d as int);
            lemma_dec_val_take_succ(digits, k - (i + 1));
        }
        let next = match acc.checked_mul(10) {
            Some(t) => t.checked_add(d),
            None => None,
        };
        match next {
            Some(v) => {
                acc = v;
            },
            None => {
                proof {
                    if all_digits(digits) {
                        lemma_dec_val_prefix_le(digits, k - (i + 1) + 1);
                        assert(dec_val(digits) > usize::MAX as int);
                    }
                }
                return None;
            },
        }
        k = k + 1;
    }
    proof {
        assert(digits.take(j - (i + 1)) =~= digits);
        assert forall|t: int| 0 <= t < digits.len() implies is_digit_char(digits[t]) by {
            assert(digits[t] == uid@[i + 1 + t]);
        }
        assert(uid@.take(i as int) =~= uid@.subrange(0, i as int));
    }
    let mailbox = uid.substring_char(0, i).to_owned();
    Some((mailbox, acc))
}

/// The greatest index `<= i` where `c` occurs in `s`, or `-1`.
pub open spec fn last_at(s: Seq<char>, c: char, i: int) -> int
    recommends
        i < s.len(),
    decreases i + 1 when i >= -1
{
    if i < 0 {
        -1
    } else if s[i] == c {
        i
    } else {
        last_at(s, c, i - 1)
    }
}

/// The greatest index where `c` occurs in `s`, or `-1`.
pub open spec fn last_of(s: Seq<char>, c: char) -> int {
    last_at(s, c, s.len() - 1)
}

pub proof fn lemma_last_at_props(s: Seq<char>, c: char, i: int)
    requires
        -1 <= i < s.len(),
    ensures
        -1 <= last_at(s, c, i) <= i,
        last_at(s, c, i) >= 0 ==> s[last_at(s, c, i)] == c,
        forall|j: int| last_at(s, c, i) < j <= i ==> s[j] != c,
    decreases i + 1,
{
    if i >= 0 && s[i] != c {
        lemma_last_at_props(s, c, i - 1);
    }
}

/// Finds the last occurrence of `c` in `s`.
pub fn rfind_char(s: &str, c: char) -> (r: Option<usize>)
    ensures
        match r {
            Some(k) => k as int == last_of(s@, c),
            None => last_of(s@, c) == -1,
        },
{
    let n = s.unicode_len();
    let mut i: usize = n;
    while i > 0
        invariant
            i <= n,
            n == s@.len(),
            last_of(s@, c) == last_at(s@, c, i as int - 1),
        decreases i,
    {
        let idx = i - 1;
        let ch = s.get_char(idx);
        if ch == c {
            return Some(idx);
        }
        i = idx;
    }
    None
}

/// What an outside trimming routine returns: the input with leading and
/// trailing whitespace removed. The result depends on the characters alone.
pub uninterp spec fn trimmed_of(s: Seq<char>) -> Seq<char>;

/// Relies on `str::trim`: removes leading and trailing whitespace.
#[verifier::external_body]
pub(crate) fn trim_str(s: &str) -> (r: String)
    ensures
        r@ == trimmed_of(s@),
        s@.len() == 0 ==> r@.len() == 0,
{
    s.trim().to_owned()
}

} // verus!
