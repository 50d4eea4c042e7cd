//! Character-exact string helpers.
//!
//! All contracts are stated over `Seq<char>` views, so callers reason about
//! Unicode characters, never bytes.

use vstd::prelude::*;
use vstd::string::StrSliceExecFns;
use vstd::string::StringExecFns;

verus! {

/// `p` is a prefix of `s`, character-wise.
pub open spec fn is_prefix(p: Seq<char>, s: Seq<char>) -> bool {
    p.len() <= s.len() && s.take(p.len() as int) == p
}

/// `n` occurs somewhere in `s` as a contiguous run of characters.
pub open spec fn contains_seq(s: Seq<char>, n: Seq<char>) -> bool {
    exists|i: int| 0 <= i && i + n.len() <= s.len() && #[trigger] s.subrange(i, i + n.len() as int) == n
}

/// Character-wise equality of two string slices.
pub fn str_eq(a: &str, b: &str) -> (r: bool)
    ensures
        r == (a@ == b@),
{
    let sa: String = a.to_owned();
    let sb: String = b.to_owned();
    sa == sb
}

/// Whether `s` starts with `prefix`, counting characters.
pub fn starts_with_chars(s: &str, prefix: &str) -> (r: bool)
    ensures
        r == is_prefix(prefix@, s@),
{
    let plen = prefix.unicode_len();
    let slen = s.unicode_len();
    if plen > slen {
        false
    } else {
        let head = s.substring_char(0, plen);
        str_eq(head, prefix)
    }
}

/// Whether `needle` occurs in `s`, counting characters.
pub fn contains_chars(s: &str, needle: &str) -> (r: bool)
    ensures
        r == contains_seq(s@, needle@),
{
    let nlen = needle.unicode_len();
    let slen = s.unicode_len();
    if nlen > slen {
        assert(!contains_seq(s@, needle@));
        return false;
    }
    if nlen == 0 {
        assert(contains_seq(s@, needle@)) by {
            assert(s@.subrange(0, 0 + needle@.len() as int) == needle@);
        }
        return true;
    }
    let mut i: usize = 0;
    while i <= slen - nlen
        invariant
            nlen == needle@.len(),
            slen == s@.len(),
            1 <= nlen <= slen,
            i <= slen - nlen + 1,
            forall|j: int| 0 <= j < i ==> #[trigger] s@.subrange(j, j + needle@.len() as int) != needle@,
        decreases slen - nlen - i + 1,
    {
        let w = s.substring_char(i, i + nlen);
        if str_eq(w, needle) {
            assert(s@.subrange(i as int, i + needle@.len() as int) == needle@);
            return true;
        }
        i = i + 1;
    }
    assert(forall|j: int| 0 <= j && j + needle@.len() <= s@.len()
        ==> #[trigger] s@.subrange(j, j + needle@.len() as int) != needle@);
    false
}

/// Index of the first occurrence of `c` in `s`, if any.
pub open spec fn find_first(s: Seq<char>, c: char) -> Option<int>
    decreases s.len(),
{
    if s.len() == 0 {
        None
    } else if s[0] == c {
        Some(0int)
    } else {
        match find_first(s.drop_first(), c) {
            None => None,
            Some(i) => Some(i + 1),
        }
    }
}

/// A position that holds `c`, with no earlier one, is the first occurrence.
proof fn lemma_find_first_some(s: Seq<char>, c: char, i: int)
    requires
        0 <= i < s.len(),
        s[i] == c,
        forall|j: int| 0 <= j < i ==> s[j] != c,
    ensures
        find_first(s, c) == Some(i),
    decreases s.len(),
{
    if i == 0 {
    } else {
        assert(s.drop_first()[i - 1] == c);
        assert(forall|j: int| 0 <= j < i - 1 ==> s.drop_first()[j] != c);
        lemma_find_first_some(s.drop_first(), c, i - 1);
    }
}

/// A string without `c` has no first occurrence of it.
proof fn lemma_find_first_none(s: Seq<char>, c: char)
    requires
        forall|j: int| 0 <= j < s.len() ==> s[j] != c,
    ensures
        find_first(s, c) is None,
    decreases s.len(),
{
    if s.len() > 0 {
        lemma_find_first_none(s.drop_first(), c);
    }
}

/// The first occurrence really is one: in range, a hit, and minimal.
pub proof fn lemma_find_first_characterization(s: Seq<char>, c: char)
    ensures
        match find_first(s, c) {
            Some(i) => 0 <= i < s.len() && s[i] == c && forall|j: int| 0 <= j < i ==> s[j] != c,
            None => forall|j: int| 0 <= j < s.len() ==> s[j] != c,
        },
    decreases s.len(),
{
    if s.len() > 0 && s[0] != c {
        lemma_find_first_characterization(s.drop_first(), c);
        match find_first(s.drop_first(), c) {
            Some(i) => {
                assert(s[i + 1] == s.drop_first()[i]);
                assert(forall|j: int| 1 <= j < i + 1 ==> s[j] == s.drop_first()[j - 1]);
            },
            None => {
                assert(forall|j: int| 1 <= j < s.len() ==> s[j] == s.drop_first()[j - 1]);
            },
        }
    }
}

/// Index of the first occurrence of `c` in `s`, or `None`.
pub fn find_char(s: &str, c: char) -> (r: Option<usize>)
    ensures
        match r {
            Some(i) => find_first(s@, c) == Some(i as int),
            None => find_first(s@, c) is None,
        },
{
    let slen = s.unicode_len();
    let mut i: usize = 0;
    while i < slen
        invariant
            slen == s@.len(),
            i <= slen,
            forall|j: int| 0 <= j < i ==> s@[j] != c,
        decreases slen - i,
    {
        let ch = s.get_char(i);
        if ch == c {
            proof {
                lemma_find_first_some(s@, c, i as int);
            }
            return Some(i);
        }
        i = i + 1;
    }
    proof {
        lemma_find_first_none(s@, c);
    }
    None
}

/// The segments of `s` between occurrences of `sep`, in order. A string
/// without the separator is one segment; every separator adds one more, so
/// the result is never empty.
pub open spec fn split_spec(s: Seq<char>, sep: char) -> Seq<Seq<char>>
    decreases s.len() via split_spec_decreases
{
    match find_first(s, sep) {
        None => seq![s],
        Some(i) => seq![s.take(i)] + split_spec(s.skip(i + 1), sep),
    }
}

#[via_fn]
proof fn split_spec_decreases(s: Seq<char>, sep: char) {
    lemma_find_first_characterization(s, sep);
}

/// No segment of a split holds the separator it was split at.
pub proof fn lemma_split_no_sep(s: Seq<char>, sep: char)
    ensures
        forall|k: int, idx: int|
            0 <= k < split_spec(s, sep).len() && 0 <= idx < split_spec(s, sep)[k].len()
                ==> #[trigger] split_spec(s, sep)[k][idx] != sep,
    decreases s.len(),
{
    lemma_find_first_characterization(s, sep);
    match find_first(s, sep) {
        None => {},
        Some(i) => {
            lemma_split_no_sep(s.skip(i + 1), sep);
            let rest = split_spec(s.skip(i + 1), sep);
            assert forall|k: int, idx: int|
                0 <= k < split_spec(s, sep).len() && 0 <= idx < split_spec(s, sep)[k].len()
                    implies #[trigger] split_spec(s, sep)[k][idx] != sep by {
                if k == 0 {
                    assert(split_spec(s, sep)[0] == s.take(i));
                    assert(s.take(i)[idx] == s[idx]);
                } else {
                    assert(split_spec(s, sep)[k] == rest[k - 1]);
                }
            }
        },
    }
}

/// Splitting `s` at every occurrence of `sep`, as `str::split` does.
pub fn split_char(s: &str, sep: char) -> (r: Vec<String>)
    ensures
        r.deep_view() == split_spec(s@, sep),
{
    let ghost whole: Seq<char> = s@;
    let mut acc: Vec<String> = Vec::new();
    let mut remaining: String = s.to_owned();
    loop
        invariant
            whole == s@,
            acc.deep_view() + split_spec(remaining@, sep) == split_spec(whole, sep),
        decreases remaining@.len(),
    {
        let rem_len = remaining.as_str().unicode_len();
        let ghost rem_view: Seq<char> = remaining@;
        let ghost acc_view: Seq<Seq<char>> = acc.deep_view();
        match find_char(remaining.as_str(), sep) {
            None => {
                acc.push(remaining);
                proof {
                    assert(acc.deep_view() =~~= acc_view + seq![rem_view]);
                    assert(split_spec(rem_view, sep) == seq![rem_view]);
                    assert(acc.deep_view() =~~= split_spec(whole, sep));
                }
                return acc;
            },
            Some(i) => {
                proof {
                    lemma_find_first_characterization(remaining@, sep);
                }
                let head = remaining.as_str().substring_char(0, i).to_owned();
                let tail = remaining.as_str().substring_char(i + 1, rem_len).to_owned();
                assert(head@ == rem_view.take(i as int));
                assert(tail@ =~= rem_view.skip(i + 1));
                acc.push(head);
                proof {
                    assert(acc.deep_view() =~~= acc_view + seq![rem_view.take(i as int)]);
                    assert(split_spec(rem_view, sep) == seq![rem_view.take(i as int)] + split_spec(
                        rem_view.skip(i + 1),
                        sep,
                    ));
                    assert(acc.deep_view() + split_spec(tail@, sep) =~~= split_spec(whole, sep));
                }
                remaining = tail;
            },
        }
    }
}

/// True of space, tab, carriage return and line feed: the whitespace that the
/// trimming helpers remove.
pub open spec fn is_ws(c: char) -> bool {
    c == ' ' || c == '\t' || c == '\n' || c == '\r'
}

/// `s` without leading whitespace.
pub open spec fn trim_front_spec(s: Seq<char>) -> Seq<char>
    decreases s.len(),
{
    if s.len() > 0 && is_ws(s[0]) {
        trim_front_spec(s.drop_first())
    } else {
        s
    }
}

/// `s` without trailing whitespace.
pub open spec fn trim_back_spec(s: Seq<char>) -> Seq<char>
    decreases s.len(),
{
    if s.len() > 0 && is_ws(s.last()) {
        trim_back_spec(s.drop_last())
    } else {
        s
    }
}

/// `s` without leading and trailing whitespace.
pub open spec fn trim_spec(s: Seq<char>) -> Seq<char> {
    trim_back_spec(trim_front_spec(s))
}

proof fn lemma_trim_front_skip(s: Seq<char>, k: int)
    requires
        0 <= k <= s.len(),
        forall|j: int| 0 <= j < k ==> is_ws(s[j]),
        k < s.len() ==> !is_ws(s[k]),
    ensures
        trim_front_spec(s) == s.skip(k),
    decreases k,
{
    if k == 0 {
        assert(s.skip(0) =~= s);
    } else {
        assert(is_ws(s[0]));
        lemma_trim_front_skip(s.drop_first(), k - 1);
        assert(s.drop_first().skip(k - 1) =~= s.skip(k));
    }
}

proof fn lemma_trim_back_take(s: Seq<char>, k: int)
    requires
        0 <= k <= s.len(),
        forall|j: int| k <= j < s.len() ==> is_ws(s[j]),
        k > 0 ==> !is_ws(s[k - 1]),
    ensures
        trim_back_spec(s) == s.take(k),
    decreases s.len() - k,
{
    if k == s.len() {
        assert(s.take(k) =~= s);
    } else {
        assert(is_ws(s.last()));
        lemma_trim_back_take(s.drop_last(), k);
        assert(s.drop_last().take(k) =~= s.take(k));
    }
}

/// Executable whitespace test matching `is_ws`.
fn is_ws_char(c: char) -> (r: bool)
    ensures
        r == is_ws(c),
{
    c == ' ' || c == '\t' || c == '\n' || c == '\r'
}

/// The index of the first non-whitespace character, or the length.
fn first_non_ws(s: &str) -> (k: usize)
    ensures
        k <= s@.len(),
        forall|j: int| 0 <= j < k ==> is_ws(s@[j]),
        k < s@.len() ==> !is_ws(s@[k as int]),
{
    let slen = s.unicode_len();
    let mut i: usize = 0;
    while i < slen
        invariant
            slen == s@.len(),
            i <= slen,
            forall|j: int| 0 <= j < i ==> is_ws(s@[j]),
        decreases slen - i,
    {
        if !is_ws_char(s.get_char(i)) {
            return i;
        }
        i = i + 1;
    }
    slen
}

/// One past the last non-whitespace character at or after `start`, or `start`.
fn last_non_ws_from(s: &str, start: usize) -> (k: usize)
    requires
        start <= s@.len(),
    ensures
        start <= k <= s@.len(),
        forall|j: int| k <= j < s@.len() ==> is_ws(s@[j]),
        k > start ==> !is_ws(s@[k - 1]),
{
    let slen = s.unicode_len();
    let mut end: usize = slen;
    while end > start
        invariant
            slen == s@.len(),
            start <= end <= slen,
            forall|j: int| end <= j < slen ==> is_ws(s@[j]),
        decreases end,
    {
        if !is_ws_char(s.get_char(end - 1)) {
            return end;
        }
        end = end - 1;
    }
    end
}

/// `s` with leading and trailing whitespace removed, counting the four
/// common whitespace characters.
pub fn trim_spaces(s: &str) -> (r: String)
    ensures
        r@ == trim_spec(s@),
{
    let start = first_non_ws(s);
    proof {
        lemma_trim_front_skip(s@, start as int);
    }
    let ghost fronted: Seq<char> = s@.skip(start as int);
    let end = last_non_ws_from(s, start);
    let r = s.substring_char(start, end).to_owned();
    proof {
        assert(forall|j: int| end - start <= j < fronted.len() ==> is_ws(#[trigger] fronted[j]));
        lemma_trim_back_take(fronted, end - start);
        assert(fronted.take(end - start) =~= s@.subrange(start as int, end as int));
    }
    r
}

/// One leading space before digits is all that trimming removes.
pub proof fn lemma_trim_digits(s: Seq<char>, d: Seq<char>)
    requires
        s == seq![' '] + d,
        d.len() > 0,
        all_digits(d),
    ensures
        trim_spec(s) == d,
{
    assert(is_ws(s[0]));
    assert(is_digit(d[0]));
    assert(s[1] == d[0]);
    assert(!is_ws(s[1]));
    lemma_trim_front_skip(s, 1);
    assert(s.skip(1) =~= d);
    assert(is_digit(d[d.len() - 1]));
    assert(!is_ws(d[d.len() - 1]));
    lemma_trim_back_take(d, d.len() as int);
    assert(d.take(d.len() as int) =~= d);
}

/// A decimal digit.
pub open spec fn is_digit(c: char) -> bool {
    48 <= c as int && c as int <= 57
}

/// Every character of `s` is a decimal digit.
pub open spec fn all_digits(s: Seq<char>) -> bool {
    forall|i: int| 0 <= i < s.len() ==> is_digit(#[trigger] s[i])
}

/// The value of a sequence of decimal digits, most significant first.
pub open spec fn digits_val(s: Seq<char>) -> int
    decreases s.len(),
{
    if s.len() == 0 {
        0
    } else {
        digits_val(s.drop_last()) * 10 + (s.last() as int - 48)
    }
}

/// Appending digits never decreases the value.
proof fn lemma_digits_val_monotone(s: Seq<char>, i: int)
    requires
        0 <= i <= s.len(),
        all_digits(s),
    ensures
        digits_val(s.take(i)) <= digits_val(s),
    decreases s.len() - i,
{
    if i < s.len() {
        lemma_digits_val_nonneg(s.take(i));
        assert(s.take(i + 1).drop_last() =~= s.take(i));
        assert(s.take(i + 1).last() == s[i]);
        assert(digits_val(s.take(i + 1)) == digits_val(s.take(i)) * 10 + (s[i] as int - 48));
        lemma_digits_val_monotone(s, i + 1);
    } else {
        assert(s.take(i) =~= s);
    }
}

proof fn lemma_digits_val_nonneg(s: Seq<char>)
    requires
        all_digits(s),
    ensures
        digits_val(s) >= 0,
    decreases s.len(),
{
    if s.len() > 0 {
        assert(all_digits(s.drop_last())) by {
            assert(forall|i: int| 0 <= i < s.len() - 1 ==> is_digit(#[trigger] s.drop_last()[i]));
        }
        lemma_digits_val_nonneg(s.drop_last());
    }
}

/// Parse `s` as a decimal `u64`. Succeeds exactly when `s` is one or more
/// decimal digits whose value fits in the type.
pub fn parse_u64(s: &str) -> (r: Option<u64>)
    ensures
        r is Some <==> (s@.len() > 0 && all_digits(s@) && digits_val(s@) <= u64::MAX),
        r matches Some(v) ==> v as int == digits_val(s@),
{
    let slen = s.unicode_len();
    if slen == 0 {
        return None;
    }
    let mut acc: u64 = 0;
    let mut i: usize = 0;
    while i < slen
        invariant
            slen == s@.len(),
            i <= slen,
            all_digits(s@.take(i as int)),
            acc as int == digits_val(s@.take(i as int)),
        decreases slen - i,
    {
        let c = s.get_char(i);
        let code = c as u32;
        if code < 48 || code > 57 {
            assert(!is_digit(s@[i as int]));
            return None;
        }
        let digit = (code - 48) as u64;
        assert(s@.take(i + 1).drop_last() =~= s@.take(i as int));
        assert(s@.take(i + 1).last() == s@[i as int]);
        let step = match acc.checked_mul(10) {
            Some(m) => m.checked_add(digit),
            None => None,
        };
        match step {
            Some(next) => {
                acc = next;
            },
            None => {
                proof {
                    assert(digits_val(s@.take(i + 1)) > u64::MAX);
                    if all_digits(s@) {
                        lemma_digits_val_monotone(s@, i + 1);
                    }
                }
                return None;
            },
        }
        i = i + 1;
    }
    assert(s@.take(slen as int) =~= s@);
    Some(acc)
}

/// How many times `c` occurs in `s`.
pub open spec fn count_char_spec(s: Seq<char>, c: char) -> int
    decreases s.len(),
{
    if s.len() == 0 {
        0
    } else {
        count_char_spec(s.drop_last(), c) + if s.last() == c { 1int } else { 0int }
    }
}

proof fn lemma_count_char_bound(s: Seq<char>, c: char)
    ensures
        0 <= count_char_spec(s, c) <= s.len(),
    decreases s.len(),
{
    if s.len() > 0 {
        lemma_count_char_bound(s.drop_last(), c);
    }
}

/// The number of occurrences of `c` in `s`.
pub fn count_char(s: &str, c: char) -> (r: usize)
    ensures
        r as int == count_char_spec(s@, c),
{
    let slen = s.unicode_len();
    let mut n: usize = 0;
    let mut i: usize = 0;
    while i < slen
        invariant
            slen == s@.len(),
            i <= slen,
            n as int == count_char_spec(s@.take(i as int), c),
            n <= i,
        decreases slen - i,
    {
        proof {
            lemma_count_char_bound(s@.take(i as int), c);
            assert(s@.take(i + 1).drop_last() =~= s@.take(i as int));
            assert(s@.take(i + 1).last() == s@[i as int]);
        }
        if s.get_char(i) == c {
            n = n + 1;
        }
        i = i + 1;
    }
    assert(s@.take(slen as int) =~= s@);
    n
}

/// Lexicographic order on character sequences: decided by the first
/// differing character, with a prefix before its extensions.
pub open spec fn lex_le(a: Seq<char>, b: Seq<char>) -> bool
    decreases a.len(),
{
    if a.len() == 0 {
        true
    } else if b.len() == 0 {
        false
    } else if (a[0] as int) < (b[0] as int) {
        true
    } else if (a[0] as int) > (b[0] as int) {
        false
    } else {
        lex_le(a.drop_first(), b.drop_first())
    }
}

/// A common prefix does not decide the order.
proof fn lemma_lex_le_skip(a: Seq<char>, b: Seq<char>, i: int)
    requires
        0 <= i <= a.len(),
        i <= b.len(),
        forall|j: int| 0 <= j < i ==> a[j] == b[j],
    ensures
        lex_le(a, b) == lex_le(a.skip(i), b.skip(i)),
    decreases i,
{
    if i > 0 {
        assert(a[0] == b[0]);
        assert(forall|j: int| 0 <= j < i - 1 ==> a.drop_first()[j] == b.drop_first()[j]);
        lemma_lex_le_skip(a.drop_first(), b.drop_first(), i - 1);
        assert(a.drop_first().skip(i - 1) =~= a.skip(i));
        assert(b.drop_first().skip(i - 1) =~= b.skip(i));
    } else {
        assert(a.skip(0) =~= a);
        assert(b.skip(0) =~= b);
    }
}

/// The order is total: of any two strings, one is at most the other.
pub proof fn lemma_lex_le_total(a: Seq<char>, b: Seq<char>)
    ensures
        lex_le(a, b) || lex_le(b, a),
    decreases a.len(),
{
    if a.len() > 0 && b.len() > 0 && (a[0] as int) == (b[0] as int) {
        lemma_lex_le_total(a.drop_first(), b.drop_first());
    }
}

/// Lexicographic comparison of two strings, counting characters.
pub fn lex_le_str(a: &str, b: &str) -> (r: bool)
    ensures
        r == lex_le(a@, b@),
{
    let alen = a.unicode_len();
    let blen = b.unicode_len();
    let mut i: usize = 0;
    while i < alen && i < blen
        invariant
            alen == a@.len(),
            blen == b@.len(),
            i <= alen,
            i <= blen,
            forall|j: int| 0 <= j < i ==> a@[j] == b@[j],
        decreases alen - i,
    {
        let ca = a.get_char(i) as u32;
        let cb = b.get_char(i) as u32;
        if ca < cb {
            proof {
                lemma_lex_le_skip(a@, b@, i as int);
                assert(a@.skip(i as int)[0] == a@[i as int]);
                assert(b@.skip(i as int)[0] == b@[i as int]);
            }
            return true;
        }
        if ca > cb {
            proof {
                lemma_lex_le_skip(a@, b@, i as int);
                assert(a@.skip(i as int)[0] == a@[i as int]);
                assert(b@.skip(i as int)[0] == b@[i as int]);
            }
            return false;
        }
        proof {
            assert(a@[i as int] == b@[i as int]);
        }
        i = i + 1;
    }
    proof {
        lemma_lex_le_skip(a@, b@, i as int);
        if i < a@.len() {
            assert(b@.skip(i as int).len() == 0);
            assert(a@.skip(i as int).len() > 0);
        }
    }
    alen <= blen
}

/// The character for one decimal digit value.
pub open spec fn digit_char(d: int) -> char {
    if d == 0 {
        '0'
    } else if d == 1 {
        '1'
    } else if d == 2 {
        '2'
    } else if d == 3 {
        '3'
    } else if d == 4 {
        '4'
    } else if d == 5 {
        '5'
    } else if d == 6 {
        '6'
    } else if d == 7 {
        '7'
    } else if d == 8 {
        '8'
    } else {
        '9'
    }
}

/// The decimal rendering of a nonnegative number, most significant digit
/// first.
pub open spec fn dec_digits(n: int) -> Seq<char>
    decreases n,
{
    if n < 10 {
        seq![digit_char(if n < 0 { 0int } else { n })]
    } else {
        dec_digits(n / 10) + seq![digit_char(n % 10)]
    }
}

/// The one-character string for a decimal digit value.
fn digit_str(d: u64) -> (r: &'static str)
    requires
        d < 10,
    ensures
        r@ == seq![digit_char(d as int)],
{
    proof {
        reveal_strlit("0");
        reveal_strlit("1");
        reveal_strlit("2");
        reveal_strlit("3");
        reveal_strlit("4");
        reveal_strlit("5");
        reveal_strlit("6");
        reveal_strlit("7");
        reveal_strlit("8");
        reveal_strlit("9");
    }
    match d {
        0 => "0",
        1 => "1",
        2 => "2",
        3 => "3",
        4 => "4",
        5 => "5",
        6 => "6",
        7 => "7",
        8 => "8",
        _ => "9",
    }
}

/// The decimal rendering of a number.
pub fn u64_to_dec(n: u64) -> (r: String)
    ensures
        r@ == dec_digits(n as int),
    decreases n,
{
    if n < 10 {
        digit_str(n).to_owned()
    } else {
        let mut s = u64_to_dec(n / 10);
        s.append(digit_str(n % 10));
        s
    }
}

/// The concatenation of `parts[i..]`, separated by `sep`, with a leading
/// separator whenever `i > 0`.
pub open spec fn join_from(parts: Seq<Seq<char>>, sep: Seq<char>, i: int) -> Seq<char>
    decreases parts.len() - i,
{
    if i < 0 || i >= parts.len() {
        Seq::empty()
    } else {
        let lead: Seq<char> = if i > 0 {
            sep
        } else {
            Seq::empty()
        };
        lead + parts[i] + join_from(parts, sep, i + 1)
    }
}

/// The parts joined by the separator, as `[..].join` renders them.
pub open spec fn join_spec(parts: Seq<Seq<char>>, sep: Seq<char>) -> Seq<char> {
    join_from(parts, sep, 0)
}

proof fn lemma_join_from_unfold(parts: Seq<Seq<char>>, sep: Seq<char>, i: int)
    requires
        0 <= i < parts.len(),
    ensures
        join_from(parts, sep, i) == (if i > 0 {
            sep
        } else {
            Seq::<char>::empty()
        }) + parts[i] + join_from(parts, sep, i + 1),
{
}

/// The parts joined with `sep` between each pair of neighbours.
pub fn join_str(parts: &Vec<String>, sep: &str) -> (r: String)
    ensures
        r@ == join_spec(parts.deep_view(), sep@),
{
    let mut out = String::new();
    let mut i: usize = 0;
    let n = parts.len();
    while i < n
        invariant
            n == parts.len(),
            i <= n,
            parts.deep_view().len() == n,
            out@ + join_from(parts.deep_view(), sep@, i as int) == join_spec(parts.deep_view(), sep@),
        decreases n - i,
    {
        proof {
            lemma_join_from_unfold(parts.deep_view(), sep@, i as int);
            assert(parts.deep_view()[i as int] == parts[i as int]@);
        }
        if i > 0 {
            out.append(sep);
        }
        out.append(parts[i].as_str());
        i = i + 1;
    }
    assert(out@ =~= join_spec(parts.deep_view(), sep@));
    out
}

} // verus!
