//! Character-level helpers shared by the parsers and label builders.
use vstd::prelude::*;

verus! {

broadcast use vstd::string::group_string_axioms;

/// Appends one character to a string.
///
/// Trusted: calls `String::push`, which std documents as appending the given
/// character to the end of the string; the contract states exactly that.
#[verifier::external_body]
pub fn push_char(s: &mut String, c: char)
    ensures
        final(s)@ == old(s)@.push(c),
{
    s.push(c);
}

/// The characters of a string slice, in order.
pub fn str_chars(s: &str) -> (out: Vec<char>)
    ensures
        out@ == s@,
{
    let mut out: Vec<char> = Vec::new();
    for c in it: s.chars()
        invariant
            out@ == it.seq().take(it.index() as int),
    {
        out.push(c);
    }
    out
}

/// A new string holding the given characters.
pub fn chars_to_string(chars: &[char]) -> (out: String)
    ensures
        out@ == chars@,
{
    let mut out = String::new();
    let mut i: usize = 0;
    while i < chars.len()
        invariant
            i <= chars@.len(),
            out@ == chars@.take(i as int),
        decreases chars@.len() - i,
    {
        push_char(&mut out, chars[i]);
        i = i + 1;
        assert(chars@.take(i as int) == chars@.take(i - 1).push(chars@[i - 1]));
    }
    assert(chars@.take(chars@.len() as int) == chars@);
    out
}

/// A new string with the same characters as a string slice.
pub fn owned(s: &str) -> (out: String)
    ensures
        out@ == s@,
{
    s.to_owned()
}

/// The ASCII digit for a value below ten.
pub open spec fn digit_char(d: int) -> char {
    (48 + d) as char
}

/// The decimal spelling of a natural number, most significant digit first,
/// without leading zeros (zero is spelled `0`).
pub open spec fn decimal(n: nat) -> Seq<char>
    decreases n,
{
    if n < 10 {
        seq![digit_char(n as int)]
    } else {
        decimal(n / 10).push(digit_char((n % 10) as int))
    }
}

fn digit(d: u64) -> (c: char)
    requires
        d < 10,
    ensures
        c == digit_char(d as int),
{
    let b: u8 = 48u8 + (d as u8);
    b as char
}

/// Appends the decimal spelling of `n` to `s`.
pub fn push_decimal(s: &mut String, n: u64)
    ensures
        final(s)@ == old(s)@ + decimal(n as nat),
    decreases n,
{
    if n >= 10 {
        push_decimal(s, n / 10);
    }
    push_char(s, digit(n % 10));
    proof {
        if n >= 10 {
            assert(decimal(n as nat) == decimal((n / 10) as nat).push(digit_char((n % 10) as int)));
        }
    }
}

/// Whether `c` is an ASCII decimal digit.
pub open spec fn is_digit(c: char) -> bool {
    '0' <= c <= '9'
}

/// The value of an ASCII decimal digit.
pub open spec fn digit_value(c: char) -> int {
    c as int - 48
}

/// The value of a non-empty run of ASCII digits.
pub open spec fn digits_value(s: Seq<char>) -> int
    decreases s.len(),
{
    if s.len() == 0 {
        0
    } else {
        digits_value(s.drop_last()) * 10 + digit_value(s.last())
    }
}

/// The part of an integer's text after an optional leading `+`.
pub open spec fn unsigned_body(s: Seq<char>) -> Seq<char> {
    if s.len() > 0 && s[0] == '+' { s.drop_first() } else { s }
}

/// Whether `s` is a non-empty run of ASCII digits.
pub open spec fn all_digits(s: Seq<char>) -> bool {
    s.len() > 0 && forall|i: int| 0 <= i < s.len() ==> is_digit(#[trigger] s[i])
}

/// Whether `s` is the text of a `u8` as std's integer parser reads it: an
/// optional `+` sign, then one or more ASCII digits, with a value of at most 255.
pub open spec fn u8_text(s: Seq<char>) -> bool {
    all_digits(unsigned_body(s)) && digits_value(unsigned_body(s)) <= 255
}

/// The value that `u8_text` describes.
pub open spec fn u8_text_value(s: Seq<char>) -> int {
    digits_value(unsigned_body(s))
}

proof fn lemma_digits_value_nonneg(s: Seq<char>)
    requires
        forall|i: int| 0 <= i < s.len() ==> is_digit(#[trigger] s[i]),
    ensures
        digits_value(s) >= 0,
    decreases s.len(),
{
    if s.len() > 0 {
        lemma_digits_value_nonneg(s.drop_last());
    }
}

proof fn lemma_digits_value_prefix(s: Seq<char>, k: int)
    requires
        0 <= k <= s.len(),
        forall|i: int| 0 <= i < s.len() ==> is_digit(#[trigger] s[i]),
    ensures
        digits_value(s.take(k)) <= digits_value(s),
    decreases s.len() - k,
{
    if k < s.len() {
        assert(s.take(k + 1).drop_last() == s.take(k));
        assert(is_digit(s.take(k + 1).last()));
        lemma_digits_value_nonneg(s.take(k));
        lemma_digits_value_prefix(s, k + 1);
    } else {
        assert(s.take(k) == s);
    }
}

/// Parses a `u8` the way `str::parse::<u8>` does: `Some` exactly when the
/// text is an optional `+` followed by decimal digits whose value fits.
pub fn parse_u8(s: &[char]) -> (r: Option<u8>)
    ensures
        r is Some <==> u8_text(s@),
        r matches Some(v) ==> v as int == u8_text_value(s@),
{
    let start: usize = if s.len() > 0 && s[0] == '+' { 1 } else { 0 };
    let ghost body = unsigned_body(s@);
    assert(body == s@.skip(start as int));
    if start >= s.len() {
        return None;
    }
    let mut value: u32 = 0;
    let mut i: usize = start;
    while i < s.len()
        invariant
            start <= i <= s@.len(),
            body == s@.skip(start as int),
            body == unsigned_body(s@),
            forall|k: int| 0 <= k < i - start ==> is_digit(#[trigger] body[k]),
            value as int == digits_value(body.take(i - start)),
            value <= 255,
        decreases s@.len() - i,
    {
        let c = s[i];
        if !('0' <= c && c <= '9') {
            assert(body.len() == s@.len() - start);
            assert(!is_digit(body[i - start]));
            assert(!(forall|k: int| 0 <= k < body.len() ==> is_digit(#[trigger] body[k])));
            assert(!u8_text(s@));
            return None;
        }
        assert(body.take(i - start + 1).drop_last() == body.take(i - start));
        let d: u32 = (c as u32) - 48;
        value = value * 10 + d;
        i = i + 1;
        if value > 255 {
            proof {
                if forall|k: int| 0 <= k < body.len() ==> is_digit(#[trigger] body[k]) {
                    lemma_digits_value_prefix(body, i - start);
                    assert(digits_value(body) > 255);
                }
            }
            assert(!u8_text(s@));
            return None;
        }
    }
    assert(body.take(i - start) == body);
    Some(value as u8)
}

/// Whether the characters `s` spell the string `lit`.
pub fn text_is(s: &[char], lit: &str) -> (r: bool)
    ensures
        r == (s@ == lit@),
{
    let l = str_chars(lit);
    if s.len() != l.len() {
        return false;
    }
    let mut i: usize = 0;
    while i < s.len()
        invariant
            s@.len() == l@.len(),
            l@ == lit@,
            i <= s@.len(),
            forall|k: int| 0 <= k < i ==> s@[k] == l@[k],
        decreases s@.len() - i,
    {
        if s[i] != l[i] {
            return false;
        }
        i = i + 1;
    }
    assert(s@ == l@);
    true
}

/// `s` without the prefix `prefix`, when it starts with it.
pub open spec fn without_prefix(s: Seq<char>, prefix: Seq<char>) -> Option<Seq<char>> {
    if prefix.len() <= s.len() && s.take(prefix.len() as int) == prefix {
        Some(s.skip(prefix.len() as int))
    } else {
        None
    }
}

/// The characters after `prefix`, when `s` starts with it.
pub fn strip_prefix(s: &[char], prefix: &str) -> (r: Option<Vec<char>>)
    ensures
        r is Some <==> without_prefix(s@, prefix@) is Some,
        r matches Some(rest) ==> rest@ == without_prefix(s@, prefix@)->0,
{
    let p = str_chars(prefix);
    if p.len() > s.len() {
        return None;
    }
    let mut i: usize = 0;
    while i < p.len()
        invariant
            p@ == prefix@,
            p@.len() <= s@.len(),
            i <= p@.len(),
            forall|k: int| 0 <= k < i ==> s@[k] == p@[k],
        decreases p@.len() - i,
    {
        if s[i] != p[i] {
            assert(s@.take(p@.len() as int)[i as int] != p@[i as int]);
            return None;
        }
        i = i + 1;
    }
    assert(s@.take(p@.len() as int) == p@);
    let mut rest: Vec<char> = Vec::new();
    let mut j: usize = p.len();
    while j < s.len()
        invariant
            p@.len() <= j <= s@.len(),
            rest@ == s@.subrange(p@.len() as int, j as int),
        decreases s@.len() - j,
    {
        rest.push(s[j]);
        j = j + 1;
        assert(rest@ == s@.subrange(p@.len() as int, j as int));
    }
    assert(rest@ == s@.skip(p@.len() as int));
    Some(rest)
}

/// The pieces of `s` between occurrences of `sep`, as `str::split` gives
/// them: one more piece than there are separators, empty pieces included.
pub open spec fn split_on(s: Seq<char>, sep: char) -> Seq<Seq<char>>
    decreases s.len(),
{
    if s.len() == 0 {
        seq![Seq::empty()]
    } else {
        let front = split_on(s.drop_last(), sep);
        if s.last() == sep {
            front.push(Seq::empty())
        } else {
            front.update(front.len() - 1, front.last().push(s.last()))
        }
    }
}

proof fn lemma_split_on_nonempty(s: Seq<char>, sep: char)
    ensures
        split_on(s, sep).len() >= 1,
    decreases s.len(),
{
    if s.len() > 0 {
        lemma_split_on_nonempty(s.drop_last(), sep);
    }
}

/// Splits `s` at every occurrence of `sep`.
pub fn split_chars(s: &[char], sep: char) -> (r: Vec<Vec<char>>)
    ensures
        r@.len() == split_on(s@, sep).len(),
        forall|i: int| 0 <= i < r@.len() ==> #[trigger] r@[i]@ == split_on(s@, sep)[i],
{
    let mut pieces: Vec<Vec<char>> = Vec::new();
    let mut cur: Vec<char> = Vec::new();
    let mut i: usize = 0;
    proof {
        assert(s@.take(0) == Seq::<char>::empty());
    }
    while i < s.len()
        invariant
            i <= s@.len(),
            pieces@.len() + 1 == split_on(s@.take(i as int), sep).len(),
            forall|k: int| 0 <= k < pieces@.len() ==> #[trigger] pieces@[k]@ == split_on(
                s@.take(i as int),
                sep,
            )[k],
            cur@ == split_on(s@.take(i as int), sep).last(),
        decreases s@.len() - i,
    {
        proof {
            lemma_split_on_nonempty(s@.take(i as int), sep);
            assert(s@.take(i + 1).drop_last() == s@.take(i as int));
        }
        if s[i] == sep {
            let done = cur;
            pieces.push(done);
            cur = Vec::new();
        } else {
            cur.push(s[i]);
        }
        i = i + 1;
    }
    assert(s@.take(s@.len() as int) == s@);
    proof {
        lemma_split_on_nonempty(s@, sep);
    }
    pieces.push(cur);
    pieces
}

/// Whether `c` has the Unicode `White_Space` property, the definition
/// `char::is_whitespace` follows.
pub open spec fn is_unicode_whitespace(c: char) -> bool {
    ||| '\u{9}' <= c <= '\u{d}'
    ||| c == ' '
    ||| c == '\u{85}'
    ||| c == '\u{a0}'
    ||| c == '\u{1680}'
    ||| '\u{2000}' <= c <= '\u{200a}'
    ||| c == '\u{2028}'
    ||| c == '\u{2029}'
    ||| c == '\u{202f}'
    ||| c == '\u{205f}'
    ||| c == '\u{3000}'
}

/// Whether `c` has the Unicode `White_Space` property.
pub fn is_whitespace(c: char) -> (r: bool)
    ensures
        r == is_unicode_whitespace(c),
{
    ('\u{9}' <= c && c <= '\u{d}') || c == ' ' || c == '\u{85}' || c == '\u{a0}' || c == '\u{1680}'
        || ('\u{2000}' <= c && c <= '\u{200a}') || c == '\u{2028}' || c == '\u{2029}' || c
        == '\u{202f}' || c == '\u{205f}' || c == '\u{3000}'
}

/// A set of characters that trimming removes.
#[derive(Debug, Clone, Copy, PartialEq, Eq, Structural)]
pub enum TrimSet {
    /// Unicode whitespace, as `str::trim` removes.
    Whitespace,
    /// Square and round brackets.
    Brackets,
}

/// Whether `c` belongs to a trim set.
pub open spec fn in_trim_set(set: TrimSet, c: char) -> bool {
    match set {
        TrimSet::Whitespace => is_unicode_whitespace(c),
        TrimSet::Brackets => c == '[' || c == ']' || c == '(' || c == ')',
    }
}

fn in_set(set: TrimSet, c: char) -> (r: bool)
    ensures
        r == in_trim_set(set, c),
{
    match set {
        TrimSet::Whitespace => is_whitespace(c),
        TrimSet::Brackets => c == '[' || c == ']' || c == '(' || c == ')',
    }
}

/// `s` without its leading characters from the set.
pub open spec fn trim_front(s: Seq<char>, set: TrimSet) -> Seq<char>
    decreases s.len(),
{
    if s.len() > 0 && in_trim_set(set, s[0]) {
        trim_front(s.drop_first(), set)
    } else {
        s
    }
}

/// `s` without its trailing characters from the set.
pub open spec fn trim_back(s: Seq<char>, set: TrimSet) -> Seq<char>
    decreases s.len(),
{
    if s.len() > 0 && in_trim_set(set, s.last()) {
        trim_back(s.drop_last(), set)
    } else {
        s
    }
}

/// `s` without its leading and trailing characters from the set.
pub open spec fn trimmed(s: Seq<char>, set: TrimSet) -> Seq<char> {
    trim_back(trim_front(s, set), set)
}

/// Removes leading and trailing characters of a set.
pub fn trim(s: &[char], set: TrimSet) -> (r: Vec<char>)
    ensures
        r@ == trimmed(s@, set),
{
    let mut a: usize = 0;
    assert(s@.skip(0) == s@);
    while a < s.len() && in_set(set, s[a])
        invariant
            a <= s@.len(),
            trim_front(s@, set) == trim_front(s@.skip(a as int), set),
        decreases s@.len() - a,
    {
        assert(s@.skip(a as int).drop_first() == s@.skip(a + 1));
        a = a + 1;
    }
    let ghost front = s@.skip(a as int);
    assert(trim_front(s@, set) == front);
    let mut b: usize = s.len();
    assert(front.take(front.len() as int) == front);
    while b > a && in_set(set, s[b - 1])
        invariant
            a <= b <= s@.len(),
            front == s@.skip(a as int),
            trim_back(front, set) == trim_back(s@.subrange(a as int, b as int), set),
        decreases b,
    {
        assert(s@.subrange(a as int, b as int).drop_last() == s@.subrange(a as int, b - 1));
        b = b - 1;
    }
    let mut r: Vec<char> = Vec::new();
    let mut k: usize = a;
    while k < b
        invariant
            a <= k <= b,
            b <= s@.len(),
            r@ == s@.subrange(a as int, k as int),
        decreases b - k,
    {
        r.push(s[k]);
        k = k + 1;
        assert(r@ == s@.subrange(a as int, k as int));
    }
    r
}

/// Whether `sub` occurs in `s` as a contiguous run.
pub open spec fn has_substring(s: Seq<char>, sub: Seq<char>) -> bool {
    exists|i: int| 0 <= i && i + sub.len() <= s.len() && #[trigger] s.subrange(i, i + sub.len()) == sub
}

/// Whether `lit` occurs in `s`.
pub fn contains_text(s: &[char], lit: &str) -> (r: bool)
    ensures
        r == has_substring(s@, lit@),
{
    let sub = str_chars(lit);
    if sub.len() > s.len() {
        return false;
    }
    let mut i: usize = 0;
    while i <= s.len() - sub.len()
        invariant
            sub@ == lit@,
            sub@.len() <= s@.len(),
            i <= s@.len() - sub@.len() + 1,
            forall|j: int| 0 <= j < i ==> #[trigger] s@.subrange(j, j + sub@.len()) != sub@,
        decreases s@.len() - i,
    {
        let mut k: usize = 0;
        let mut same = true;
        while k < sub.len()
            invariant
                sub@.len() <= s@.len(),
                s@.len() <= usize::MAX,
                i + sub@.len() <= s@.len(),
                k <= sub@.len(),
                same == (forall|m: int| 0 <= m < k ==> s@[i + m] == sub@[m]),
            decreases sub@.len() - k,
        {
            assert(i + k < s@.len());
            if s[i + k] != sub[k] {
                same = false;
            }
            k = k + 1;
        }
        if same {
            assert(s@.subrange(i as int, i + sub@.len()) == sub@);
            return true;
        }
        assert(s@.subrange(i as int, i + sub@.len()) != sub@) by {
            let m = choose|m: int| 0 <= m < sub@.len() && s@[i + m] != sub@[m];
            assert(s@.subrange(i as int, i + sub@.len())[m] != sub@[m]);
        }
        i = i + 1;
    }
    assert forall|j: int| 0 <= j && j + lit@.len() <= s@.len() implies #[trigger] s@.subrange(
        j,
        j + lit@.len(),
    ) != lit@ by {
        assert(j < i);
    }
    false
}

/// Whether `s` begins with `lit`.
pub fn starts_with_text(s: &[char], lit: &str) -> (r: bool)
    ensures
        r == (without_prefix(s@, lit@) is Some),
{
    strip_prefix(s, lit).is_some()
}

/// The ASCII lower-case form of a character; other characters are unchanged.
pub open spec fn ascii_lower(c: char) -> char {
    if 'A' <= c <= 'Z' { ((c as u32) + 32) as char } else { c }
}

/// The ASCII upper-case form of a character; other characters are unchanged.
pub open spec fn ascii_upper(c: char) -> char {
    if 'a' <= c <= 'z' { ((c as u32) - 32) as char } else { c }
}

/// Lower-cases the ASCII letters of `s[from..]`.
pub fn lower_ascii_from(s: &[char], from: usize) -> (r: Vec<char>)
    requires
        from <= s@.len(),
    ensures
        r@ == s@.skip(from as int).map_values(|c: char| ascii_lower(c)),
{
    let mut r: Vec<char> = Vec::new();
    let mut i: usize = from;
    while i < s.len()
        invariant
            from <= i <= s@.len(),
            r@ == s@.subrange(from as int, i as int).map_values(|c: char| ascii_lower(c)),
        decreases s@.len() - i,
    {
        let c = s[i];
        let l = if 'A' <= c && c <= 'Z' { ((c as u32) + 32) as u8 as char } else { c };
        r.push(l);
        i = i + 1;
        assert(r@ =~= s@.subrange(from as int, i as int).map_values(|c: char| ascii_lower(c)));
    }
    assert(s@.subrange(from as int, s@.len() as int) == s@.skip(from as int));
    r
}

/// Upper-cases the ASCII letters of `s`.
pub fn upper_ascii(s: &[char]) -> (r: Vec<char>)
    ensures
        r@ == s@.map_values(|c: char| ascii_upper(c)),
{
    let mut r: Vec<char> = Vec::new();
    let mut i: usize = 0;
    while i < s.len()
        invariant
            i <= s@.len(),
            r@ == s@.take(i as int).map_values(|c: char| ascii_upper(c)),
        decreases s@.len() - i,
    {
        let c = s[i];
        let u = if 'a' <= c && c <= 'z' { ((c as u32) - 32) as u8 as char } else { c };
        r.push(u);
        i = i + 1;
        assert(r@ =~= s@.take(i as int).map_values(|c: char| ascii_upper(c)));
    }
    assert(s@.take(s@.len() as int) == s@);
    r
}

/// Whether `c` separates chord symbols in a song part: whitespace, a comma or
/// a bar line.
pub open spec fn is_chord_separator(c: char) -> bool {
    is_unicode_whitespace(c) || c == ',' || c == '|'
}

/// The pieces of `s` between chord separators, empty pieces included.
pub open spec fn split_chord_symbols(s: Seq<char>) -> Seq<Seq<char>>
    decreases s.len(),
{
    if s.len() == 0 {
        seq![Seq::empty()]
    } else {
        let front = split_chord_symbols(s.drop_last());
        if is_chord_separator(s.last()) {
            front.push(Seq::empty())
        } else {
            front.update(front.len() - 1, front.last().push(s.last()))
        }
    }
}

proof fn lemma_split_chord_symbols_nonempty(s: Seq<char>)
    ensures
        split_chord_symbols(s).len() >= 1,
    decreases s.len(),
{
    if s.len() > 0 {
        lemma_split_chord_symbols_nonempty(s.drop_last());
    }
}

/// Splits a song part at every chord separator.
pub fn split_at_separators(s: &[char]) -> (r: Vec<Vec<char>>)
    ensures
        r@.len() == split_chord_symbols(s@).len(),
        forall|i: int| 0 <= i < r@.len() ==> #[trigger] r@[i]@ == split_chord_symbols(s@)[i],
{
    let mut pieces: Vec<Vec<char>> = Vec::new();
    let mut cur: Vec<char> = Vec::new();
    let mut i: usize = 0;
    proof {
        assert(s@.take(0) == Seq::<char>::empty());
    }
    while i < s.len()
        invariant
            i <= s@.len(),
            pieces@.len() + 1 == split_chord_symbols(s@.take(i as int)).len(),
            forall|k: int| 0 <= k < pieces@.len() ==> #[trigger] pieces@[k]@ == split_chord_symbols(
                s@.take(i as int),
            )[k],
            cur@ == split_chord_symbols(s@.take(i as int)).last(),
        decreases s@.len() - i,
    {
        proof {
            lemma_split_chord_symbols_nonempty(s@.take(i as int));
            assert(s@.take(i + 1).drop_last() == s@.take(i as int));
        }
        let c = s[i];
        if is_whitespace(c) || c == ',' || c == '|' {
            let done = cur;
            pieces.push(done);
            cur = Vec::new();
        } else {
            cur.push(c);
        }
        i = i + 1;
    }
    assert(s@.take(s@.len() as int) == s@);
    proof {
        lemma_split_chord_symbols_nonempty(s@);
    }
    pieces.push(cur);
    pieces
}


/// A log preview of `value`: its first `max_chars` characters, followed by
/// `...` when characters were cut off.
pub fn truncate_for_log(value: &str, max_chars: usize) -> (r: String)
    ensures
        r@ == if value@.len() > max_chars { value@.take(max_chars as int) + "..."@ } else { value@ },
{
    let chars = str_chars(value);
    let mut out = String::new();
    let mut i: usize = 0;
    while i < chars.len() && i < max_chars
        invariant
            chars@ == value@,
            i <= chars@.len(),
            i <= max_chars,
            out@ == chars@.take(i as int),
        decreases chars@.len() - i,
    {
        push_char(&mut out, chars[i]);
        i = i + 1;
        assert(chars@.take(i as int) == chars@.take(i - 1).push(chars@[i - 1]));
    }
    if chars.len() > max_chars {
        out.append("...");
        out
    } else {
        assert(chars@.take(chars@.len() as int) == chars@);
        out
    }
}

/// A timestamp as saved records carry it: whole seconds since the Unix
/// epoch, in decimal.
pub fn timestamp_text(seconds: u64) -> (r: String)
    ensures
        r@ == decimal(seconds as nat),
{
    let mut s = String::new();
    push_decimal(&mut s, seconds);
    assert(s@ =~= decimal(seconds as nat));
    s
}

} // verus!
