//! Text helpers for command parsing: words, trimming, splitting and integer fields.

use vstd::prelude::*;

verus! {

/// ASCII whitespace: space, tab, line feed, form feed, carriage return
pub open spec fn is_ascii_ws(c: char) -> bool {
    c == ' ' || c == '\t' || c == '\n' || c == '\x0C' || c == '\r'
}

/// Unicode white space, the characters `char::is_whitespace` accepts
pub open spec fn is_unicode_ws(c: char) -> bool {
    ||| '\t' <= c <= '\r'
    ||| c == ' '
    ||| c == '\u{85}'
    ||| c == '\u{a0}'
    ||| c == '\u{1680}'
    ||| '\u{2000}' <= c <= '\u{200a}'
    ||| c == '\u{2028}'
    ||| c == '\u{2029}'
    ||| c == '\u{202f}'
    ||| c == '\u{205f}'
    ||| c == '\u{3000}'
}

/// Words found so far and the word being read, after reading `s` left to right
pub open spec fn split_state(s: Seq<char>) -> (Seq<Seq<char>>, Seq<char>)
    decreases s.len(),
{
    if s.len() == 0 {
        (Seq::empty(), Seq::empty())
    } else {
        let (ws, cur) = split_state(s.drop_last());
        let c = s.last();
        if is_ascii_ws(c) {
            if cur.len() > 0 {
                (ws.push(cur), Seq::empty())
            } else {
                (ws, cur)
            }
        } else {
            (ws, cur.push(c))
        }
    }
}

/// The words of `s`: its maximal runs without ASCII whitespace, in order
pub open spec fn ascii_words(s: Seq<char>) -> Seq<Seq<char>> {
    let (ws, cur) = split_state(s);
    if cur.len() > 0 {
        ws.push(cur)
    } else {
        ws
    }
}

/// Index of the first character that is not white space at or after `i`
pub open spec fn first_non_ws(s: Seq<char>, i: int) -> int
    decreases s.len() - i,
{
    if i >= s.len() || !is_unicode_ws(s[i]) {
        i
    } else {
        first_non_ws(s, i + 1)
    }
}

/// End of `s` once trailing white space before `i` is dropped
pub open spec fn last_non_ws_end(s: Seq<char>, i: int) -> int
    decreases i,
{
    if i <= 0 || !is_unicode_ws(s[i - 1]) {
        i
    } else {
        last_non_ws_end(s, i - 1)
    }
}

/// `s` without leading and trailing white space
pub open spec fn trimmed(s: Seq<char>) -> Seq<char> {
    let start = first_non_ws(s, 0);
    if start >= s.len() {
        Seq::empty()
    } else {
        s.subrange(start, last_non_ws_end(s, s.len() as int))
    }
}

/// Pieces of `s` between the occurrences of `sep`, and the piece after the last one
pub open spec fn split_on(s: Seq<char>, sep: char) -> Seq<Seq<char>>
    decreases s.len(),
{
    if s.len() == 0 {
        seq![Seq::empty()]
    } else {
        let prev = split_on(s.drop_last(), sep);
        if s.last() == sep {
            prev.push(Seq::empty())
        } else {
            prev.update(prev.len() - 1, prev.last().push(s.last()))
        }
    }
}

/// Whether `c` is a decimal digit
pub open spec fn is_digit(c: char) -> bool {
    '0' <= c <= '9'
}

/// Value of a run of decimal digits
pub open spec fn digits_value(s: Seq<char>) -> nat
    decreases s.len(),
{
    if s.len() == 0 {
        0
    } else {
        digits_value(s.drop_last()) * 10 + ((s.last() as int - '0' as int) as nat)
    }
}

/// `s` is one or more decimal digits
pub open spec fn all_digits(s: Seq<char>) -> bool {
    s.len() > 0 && forall|i: int| 0 <= i < s.len() ==> is_digit(#[trigger] s[i])
}

/// Value of an unsigned integer field: digits with an optional leading `+`
pub open spec fn unsigned_value(s: Seq<char>) -> Option<nat> {
    let digits = if s.len() > 0 && s[0] == '+' {
        s.drop_first()
    } else {
        s
    };
    if all_digits(digits) {
        Some(digits_value(digits))
    } else {
        None
    }
}

/// Value of a signed integer field: digits with an optional leading `+` or `-`
pub open spec fn signed_value(s: Seq<char>) -> Option<int> {
    if s.len() > 0 && s[0] == '-' {
        if all_digits(s.drop_first()) {
            Some(-(digits_value(s.drop_first()) as int))
        } else {
            None
        }
    } else {
        match unsigned_value(s) {
            Some(v) => Some(v as int),
            None => None,
        }
    }
}

/// `s` read as a `usize`, if it is one
pub open spec fn usize_value(s: Seq<char>) -> Option<usize> {
    match unsigned_value(s) {
        Some(v) => if v <= usize::MAX {
            Some(v as usize)
        } else {
            None
        },
        None => None,
    }
}

/// `s` read as a `u16`, if it is one
pub open spec fn u16_value(s: Seq<char>) -> Option<u16> {
    match unsigned_value(s) {
        Some(v) => if v <= u16::MAX {
            Some(v as u16)
        } else {
            None
        },
        None => None,
    }
}

/// `s` read as a `u32`, if it is one
pub open spec fn u32_value(s: Seq<char>) -> Option<u32> {
    match unsigned_value(s) {
        Some(v) => if v <= u32::MAX {
            Some(v as u32)
        } else {
            None
        },
        None => None,
    }
}

/// `s` read as an `i32`, if it is one
pub open spec fn i32_value(s: Seq<char>) -> Option<i32> {
    match signed_value(s) {
        Some(v) => if i32::MIN <= v <= i32::MAX {
            Some(v as i32)
        } else {
            None
        },
        None => None,
    }
}

/// Message of the error std gives for a field that is not a `u32`
pub open spec fn u32_error_text(s: Seq<char>) -> Seq<char> {
    if s.len() == 0 {
        "cannot parse integer from empty string"@
    } else if unsigned_value(s) is None {
        "invalid digit found in string"@
    } else {
        "number too large to fit in target type"@
    }
}

/// `String::push`: appends the character.
#[verifier::external_body]
pub fn push_char(s: &mut String, c: char)
    ensures
        final(s)@ == old(s)@.push(c),
{
    s.push(c)
}

/// Appends the characters of `t`
pub fn append(s: &mut String, t: &str)
    ensures
        final(s)@ == old(s)@ + t@,
{
    let ghost start = s@;
    let n = t.unicode_len();
    let mut i: usize = 0;
    while i < n
        invariant
            n == t@.len(),
            i <= n,
            s@ == start + t@.take(i as int),
        decreases n - i,
    {
        push_char(s, t.get_char(i));
        assert(t@.take(i + 1) =~= t@.take(i as int).push(t@[i as int]));
        i = i + 1;
    }
    assert(t@.take(n as int) =~= t@);
}

/// `<usize as FromStr>::from_str`: the value of an optional `+` followed by decimal digits,
/// when it fits.
#[verifier::external_body]
fn std_parse_usize(s: &str) -> (r: Option<usize>)
    ensures
        r == usize_value(s@),
{
    s.parse::<usize>().ok()
}

/// `<u16 as FromStr>::from_str`: the value of an optional `+` followed by decimal digits,
/// when it fits.
#[verifier::external_body]
fn std_parse_u16(s: &str) -> (r: Option<u16>)
    ensures
        r == u16_value(s@),
{
    s.parse::<u16>().ok()
}

/// `<i32 as FromStr>::from_str`: the value of an optional sign followed by decimal digits,
/// when it fits.
#[verifier::external_body]
fn std_parse_i32(s: &str) -> (r: Option<i32>)
    ensures
        r == i32_value(s@),
{
    s.parse::<i32>().ok()
}

/// `<u32 as FromStr>::from_str`, its error written out with `to_string`: the value of an
/// optional `+` followed by decimal digits, when it fits; else the message for an empty
/// field, an invalid digit or a value too large.
#[verifier::external_body]
fn std_parse_u32(s: &str) -> (r: Result<u32, String>)
    ensures
        match u32_value(s@) {
            Some(v) => r == Ok::<u32, String>(v),
            None => r matches Err(m) && m@ == u32_error_text(s@),
        },
{
    s.parse::<u32>().map_err(|e| e.to_string())
}

/// Field read as a `usize`
pub fn parse_usize(s: &str) -> (r: Option<usize>)
    ensures
        r == usize_value(s@),
{
    std_parse_usize(s)
}

/// Field read as a `u16`
pub fn parse_u16(s: &str) -> (r: Option<u16>)
    ensures
        r == u16_value(s@),
{
    std_parse_u16(s)
}

/// Field read as an `i32`
pub fn parse_i32(s: &str) -> (r: Option<i32>)
    ensures
        r == i32_value(s@),
{
    std_parse_i32(s)
}

/// Field read as a `u32`, or std's message for why it is not one
pub fn parse_u32(s: &str) -> (r: Result<u32, String>)
    ensures
        match u32_value(s@) {
            Some(v) => r == Ok::<u32, String>(v),
            None => r matches Err(m) && m@ == u32_error_text(s@),
        },
{
    std_parse_u32(s)
}

/// Text of the characters
pub fn string_of(chars: &Vec<char>) -> (r: String)
    ensures
        r@ == chars@,
{
    let mut s = String::new();
    let mut i: usize = 0;
    while i < chars.len()
        invariant
            i <= chars@.len(),
            s@ == chars@.take(i as int),
        decreases chars@.len() - i,
    {
        push_char(&mut s, chars[i]);
        assert(chars@.take(i + 1) =~= chars@.take(i as int).push(chars@[i as int]));
        i = i + 1;
    }
    assert(chars@.take(chars@.len() as int) =~= chars@);
    s
}

/// Characters of the text
pub fn chars_of(s: &str) -> (r: Vec<char>)
    ensures
        r@ == s@,
{
    let n = s.unicode_len();
    let mut r: Vec<char> = Vec::new();
    let mut i: usize = 0;
    while i < n
        invariant
            n == s@.len(),
            i <= n,
            r@ == s@.take(i as int),
        decreases n - i,
    {
        r.push(s.get_char(i));
        assert(s@.take(i + 1) =~= s@.take(i as int).push(s@[i as int]));
        i = i + 1;
    }
    assert(s@.take(n as int) =~= s@);
    r
}

pub fn is_ascii_whitespace(c: char) -> (r: bool)
    ensures
        r == is_ascii_ws(c),
{
    c == ' ' || c == '\t' || c == '\n' || c == '\x0C' || c == '\r'
}

pub fn is_whitespace(c: char) -> (r: bool)
    ensures
        r == is_unicode_ws(c),
{
    ('\t' <= c && c <= '\r') || c == ' ' || c == '\u{85}' || c == '\u{a0}' || c == '\u{1680}' || (
    '\u{2000}' <= c && c <= '\u{200a}') || c == '\u{2028}' || c == '\u{2029}' || c == '\u{202f}'
        || c == '\u{205f}' || c == '\u{3000}'
}

/// The words of the text, separated by ASCII whitespace
pub fn split_words(s: &Vec<char>) -> (r: Vec<String>)
    ensures
        r@.len() == ascii_words(s@).len(),
        forall|i: int| 0 <= i < r@.len() ==> #[trigger] r@[i]@ == ascii_words(s@)[i],
{
    let mut words: Vec<String> = Vec::new();
    let mut cur: Vec<char> = Vec::new();
    let mut i: usize = 0;
    while i < s.len()
        invariant
            i <= s@.len(),
            words@.len() == split_state(s@.take(i as int)).0.len(),
            forall|j: int|
                0 <= j < words@.len() ==> #[trigger] words@[j]@ == split_state(s@.take(i as int)).0[j],
            cur@ == split_state(s@.take(i as int)).1,
        decreases s@.len() - i,
    {
        let c = s[i];
        assert(s@.take(i + 1).drop_last() =~= s@.take(i as int));
        if is_ascii_whitespace(c) {
            if cur.len() > 0 {
                words.push(string_of(&cur));
                cur = Vec::new();
            }
        } else {
            cur.push(c);
        }
        i = i + 1;
    }
    assert(s@.take(s@.len() as int) =~= s@);
    if cur.len() > 0 {
        words.push(string_of(&cur));
    }
    words
}

/// The text without leading and trailing white space
pub fn trim(s: &Vec<char>) -> (r: Vec<char>)
    ensures
        r@ == trimmed(s@),
{
    let mut start: usize = 0;
    while start < s.len() && is_whitespace(s[start])
        invariant
            start <= s@.len(),
            first_non_ws(s@, start as int) == first_non_ws(s@, 0),
        decreases s@.len() - start,
    {
        start = start + 1;
    }
    if start >= s.len() {
        return Vec::new();
    }
    let mut end: usize = s.len();
    while end > 0 && is_whitespace(s[end - 1])
        invariant
            end <= s@.len(),
            last_non_ws_end(s@, end as int) == last_non_ws_end(s@, s@.len() as int),
        decreases end,
    {
        end = end - 1;
    }
    proof {
        lemma_trim_bounds(s@, start as int);
    }
    let mut r: Vec<char> = Vec::new();
    let mut k: usize = start;
    while k < end
        invariant
            start <= k <= end <= s@.len(),
            r@ == s@.subrange(start as int, k as int),
        decreases end - k,
    {
        r.push(s[k]);
        assert(s@.subrange(start as int, k + 1) =~= s@.subrange(start as int, k as int).push(
            s@[k as int],
        ));
        k = k + 1;
    }
    r
}

/// When some character is not white space, the trimmed end lies past the trimmed start.
proof fn lemma_trim_bounds(s: Seq<char>, start: int)
    requires
        0 <= start < s.len(),
        start == first_non_ws(s, 0),
    ensures
        start < last_non_ws_end(s, s.len() as int) <= s.len(),
{
    lemma_first_non_ws(s, 0);
    lemma_last_end(s, s.len() as int, start);
}

proof fn lemma_first_non_ws(s: Seq<char>, i: int)
    requires
        0 <= i <= s.len(),
    ensures
        i <= first_non_ws(s, i) <= s.len(),
        first_non_ws(s, i) < s.len() ==> !is_unicode_ws(s[first_non_ws(s, i)]),
    decreases s.len() - i,
{
    if i < s.len() && is_unicode_ws(s[i]) {
        lemma_first_non_ws(s, i + 1);
    }
}

proof fn lemma_last_end(s: Seq<char>, i: int, k: int)
    requires
        0 <= k < i <= s.len(),
        !is_unicode_ws(s[k]),
    ensures
        k < last_non_ws_end(s, i) <= i,
    decreases i,
{
    if is_unicode_ws(s[i - 1]) {
        lemma_last_end(s, i - 1, k);
    }
}

/// Pieces of the text between the occurrences of `sep`
pub fn split_chars(s: &Vec<char>, sep: char) -> (r: Vec<Vec<char>>)
    ensures
        r@.len() == split_on(s@, sep).len(),
        forall|i: int| 0 <= i < r@.len() ==> #[trigger] r@[i]@ == split_on(s@, sep)[i],
{
    let mut pieces: Vec<Vec<char>> = Vec::new();
    let mut cur: Vec<char> = Vec::new();
    let mut i: usize = 0;
    while i < s.len()
        invariant
            i <= s@.len(),
            pieces@.len() + 1 == split_on(s@.take(i as int), sep).len(),
            forall|j: int|
                0 <= j < pieces@.len() ==> #[trigger] pieces@[j]@ == split_on(s@.take(i as int), sep)[j],
            cur@ == split_on(s@.take(i as int), sep).last(),
        decreases s@.len() - i,
    {
        let c = s[i];
        assert(s@.take(i + 1).drop_last() =~= s@.take(i as int));
        if c == sep {
            pieces.push(cur);
            cur = Vec::new();
        } else {
            cur.push(c);
        }
        i = i + 1;
    }
    assert(s@.take(s@.len() as int) =~= s@);
    pieces.push(cur);
    pieces
}

/// Whether `part` begins `word`
pub fn starts_with(word: &str, part: &str) -> (r: bool)
    ensures
        r == part@.is_prefix_of(word@),
{
    let n = part.unicode_len();
    if n > word.unicode_len() {
        return false;
    }
    let mut i: usize = 0;
    while i < n
        invariant
            n == part@.len(),
            n <= word@.len(),
            i <= n,
            forall|j: int| 0 <= j < i ==> part@[j] == word@[j],
        decreases n - i,
    {
        if part.get_char(i) != word.get_char(i) {
            return false;
        }
        i = i + 1;
    }
    assert(word@.subrange(0, n as int) =~= part@);
    true
}

/// Whether `word` ends with `part`
pub fn ends_with(word: &str, part: &str) -> (r: bool)
    ensures
        r == (part@.len() <= word@.len() && word@.subrange(word@.len() - part@.len(), word@.len() as int)
            == part@),
{
    let n = part.unicode_len();
    let m = word.unicode_len();
    if n > m {
        return false;
    }
    let start = m - n;
    let mut i: usize = 0;
    while i < n
        invariant
            n == part@.len(),
            m == word@.len(),
            start == m - n,
            i <= n,
            forall|j: int| 0 <= j < i ==> part@[j] == word@[start + j],
        decreases n - i,
    {
        if part.get_char(i) != word.get_char(start + i) {
            assert(word@.subrange(start as int, m as int)[i as int] != part@[i as int]);
            return false;
        }
        i = i + 1;
    }
    assert(word@.subrange(start as int, m as int) =~= part@);
    true
}

/// Index of the first of `words` that `part` begins, searching from `i`
pub open spec fn first_with_prefix(words: Seq<Seq<char>>, part: Seq<char>, i: int) -> Option<int>
    decreases words.len() - i,
{
    if i < 0 || i >= words.len() {
        None
    } else if part.is_prefix_of(words[i]) {
        Some(i)
    } else {
        first_with_prefix(words, part, i + 1)
    }
}

} // verus!
