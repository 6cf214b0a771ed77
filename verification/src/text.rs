//! Text helpers shared by the rest of the library.
//!
//! A text is worked on as its sequence of characters. Three things are
//! left to the standard library and assumed: adding a character to a
//! string, the lowercase form of a text, and that the characters it takes
//! for white space are those that Unicode lists. Everything else here is
//! proved.

use vstd::prelude::*;
use vstd::string::*;

verus! {

/// `String::push`: the character is added at the end.
#[verifier::external_body]
fn push_char(s: &mut String, c: char)
    ensures
        final(s)@ == old(s)@.push(c),
{
    s.push(c)
}

/// The lowercase form of a text, as Unicode defines it.
pub uninterp spec fn lowercase_of(s: Seq<char>) -> Seq<char>;

/// `str::to_lowercase`.
#[verifier::external_body]
pub(crate) fn lowercase(s: &str) -> (r: String)
    ensures
        r@ == lowercase_of(s@),
{
    s.to_lowercase()
}

/// Whether a character is white space: one of the characters with the
/// Unicode property `White_Space`, which are the controls from tab to
/// carriage return, the space, the next-line control, the no-break space,
/// the Ogham space mark, the spaces from en quad to hair space, the line
/// and paragraph separators, the narrow no-break space, the medium
/// mathematical space and the ideographic space.
pub open spec fn white_space(c: char) -> bool {
    let n = c as u32;
    ||| 0x09 <= n <= 0x0d
    ||| n == 0x20
    ||| n == 0x85
    ||| n == 0xa0
    ||| n == 0x1680
    ||| 0x2000 <= n <= 0x200a
    ||| n == 0x2028
    ||| n == 0x2029
    ||| n == 0x202f
    ||| n == 0x205f
    ||| n == 0x3000
}

/// `char::is_whitespace`: whether the character has the Unicode property
/// `White_Space`.
#[verifier::external_body]
fn is_white_space(c: char) -> (r: bool)
    ensures
        r == white_space(c),
{
    c.is_whitespace()
}

/// The characters of a text.
pub fn chars_of(s: &str) -> (r: Vec<char>)
    ensures
        r@ == s@,
{
    let mut out: Vec<char> = Vec::new();
    for c in it: s.chars()
        invariant
            out@ == it.seq().subrange(0, it.index() as int),
            it.seq() == s@,
    {
        out.push(c);
        assert(out@ =~= it.seq().subrange(0, it.index() + 1));
    }
    assert(out@ =~= s@);
    out
}

/// The text of the characters from position `from` up to position `to`.
pub fn text_of(chars: &Vec<char>, from: usize, to: usize) -> (r: String)
    requires
        from <= to <= chars.len(),
    ensures
        r@ == chars@.subrange(from as int, to as int),
{
    let mut out = String::new();
    let mut i: usize = from;
    assert(out@ =~= chars@.subrange(from as int, from as int));
    while i < to
        invariant
            from <= i <= to <= chars.len(),
            out@ == chars@.subrange(from as int, i as int),
        decreases to - i,
    {
        push_char(&mut out, chars[i]);
        assert(out@ =~= chars@.subrange(from as int, i + 1));
        i = i + 1;
    }
    out
}

/// The text of one character.
pub fn char_text(c: char) -> (r: String)
    ensures
        r@ == seq![c],
{
    let mut out = String::new();
    push_char(&mut out, c);
    assert(out@ =~= seq![c]);
    out
}

/// Two texts joined end to end.
pub fn joined(a: &str, b: &str) -> (r: String)
    ensures
        r@ == a@ + b@,
{
    let mut out = String::from_str(a);
    out.append(b);
    out
}

/// The texts of a list of strings.
pub open spec fn texts(v: Seq<String>) -> Seq<Seq<char>> {
    v.map_values(|s: String| s@)
}

/// The text of an optional string.
pub open spec fn opt_text(o: Option<String>) -> Option<Seq<char>> {
    match o {
        Some(s) => Some(s@),
        None => None,
    }
}

/// A copy of an optional string.
pub fn copy_opt_text(o: &Option<String>) -> (r: Option<String>)
    ensures
        opt_text(r) == opt_text(*o),
{
    match o {
        Some(s) => Some(s.clone()),
        None => None,
    }
}

/// A copy of a slice of strings.
pub fn copy_text_slice(v: &[String]) -> (r: Vec<String>)
    ensures
        texts(r@) == texts(v@),
{
    let mut out: Vec<String> = Vec::new();
    let mut i: usize = 0;
    while i < v.len()
        invariant
            i <= v.len(),
            out.len() == i,
            forall|j: int| 0 <= j < i ==> out[j]@ == v[j]@,
        decreases v.len() - i,
    {
        out.push(v[i].clone());
        i = i + 1;
    }
    assert(texts(out@) =~= texts(v@));
    out
}

/// A copy of a list of strings.
pub fn copy_texts(v: &Vec<String>) -> (r: Vec<String>)
    ensures
        texts(r@) == texts(v@),
{
    let mut out: Vec<String> = Vec::new();
    let mut i: usize = 0;
    while i < v.len()
        invariant
            i <= v.len(),
            out.len() == i,
            forall|j: int| 0 <= j < i ==> out[j]@ == v[j]@,
        decreases v.len() - i,
    {
        out.push(v[i].clone());
        i = i + 1;
    }
    assert(texts(out@) =~= texts(v@));
    out
}

/// Whether two texts hold the same characters.
pub fn same_text(a: &str, b: &str) -> (r: bool)
    ensures
        r == (a@ == b@),
{
    let x = chars_of(a);
    let y = chars_of(b);
    if x.len() != y.len() {
        return false;
    }
    let mut i: usize = 0;
    while i < x.len()
        invariant
            i <= x.len(),
            x.len() == y.len(),
            x@ == a@,
            y@ == b@,
            forall|j: int| 0 <= j < i ==> x[j] == y[j],
        decreases x.len() - i,
    {
        if x[i] != y[i] {
            return false;
        }
        i = i + 1;
    }
    assert(x@ =~= y@);
    true
}

/// `needle` stands in `s` at position `at`.
pub open spec fn occurs_at(s: Seq<char>, needle: Seq<char>, at: int) -> bool {
    0 <= at && at + needle.len() <= s.len() && s.subrange(at, at + needle.len()) == needle
}

/// The position of the first occurrence of `needle` in `s` at or after `from`.
pub open spec fn first_occurrence_from(s: Seq<char>, needle: Seq<char>, from: int) -> Option<int>
    decreases s.len() + 1 - from,
{
    if from < 0 || from + needle.len() > s.len() {
        None
    } else if occurs_at(s, needle, from) {
        Some(from)
    } else {
        first_occurrence_from(s, needle, from + 1)
    }
}

/// The position of the first occurrence of `needle` in `s`.
pub open spec fn first_occurrence(s: Seq<char>, needle: Seq<char>) -> Option<int> {
    first_occurrence_from(s, needle, 0)
}

/// What `first_occurrence_from` finds: the first position at or after
/// `from` where `needle` stands, or nothing where it stands nowhere.
pub proof fn lemma_first_occurrence_from(s: Seq<char>, needle: Seq<char>, from: int)
    requires
        0 <= from,
    ensures
        match first_occurrence_from(s, needle, from) {
            Some(i) => from <= i && occurs_at(s, needle, i) && forall|j: int|
                from <= j < i ==> !occurs_at(s, needle, j),
            None => forall|j: int| from <= j ==> !occurs_at(s, needle, j),
        },
    decreases s.len() + 1 - from,
{
    if from + needle.len() <= s.len() && !occurs_at(s, needle, from) {
        lemma_first_occurrence_from(s, needle, from + 1);
    }
}

fn matches_at(hay: &Vec<char>, needle: &Vec<char>, at: usize) -> (r: bool)
    ensures
        r == occurs_at(hay@, needle@, at as int),
{
    let n = hay.len();
    let m = needle.len();
    if at > n || m > n - at {
        return false;
    }
    let mut k: usize = 0;
    while k < m
        invariant
            k <= m,
            m == needle.len(),
            n == hay.len(),
            at + m <= n,
            forall|j: int| 0 <= j < k ==> hay[at + j] == needle[j],
        decreases m - k,
    {
        if hay[at + k] != needle[k] {
            assert(hay@.subrange(at as int, at + m)[k as int] == hay[at + k]);
            return false;
        }
        k = k + 1;
    }
    assert(hay@.subrange(at as int, at + m) =~= needle@);
    true
}

fn find_in(hay: &Vec<char>, needle: &Vec<char>) -> (r: Option<usize>)
    ensures
        match r {
            Some(i) => first_occurrence(hay@, needle@) == Some(i as int),
            None => first_occurrence(hay@, needle@) is None,
        },
{
    let n = hay.len();
    let m = needle.len();
    if m > n {
        return None;
    }
    let last = n - m;
    let mut i: usize = 0;
    loop
        invariant
            i <= last,
            last == n - m,
            m <= n,
            n == hay.len(),
            m == needle.len(),
            first_occurrence(hay@, needle@) == first_occurrence_from(hay@, needle@, i as int),
        decreases last - i,
    {
        if matches_at(hay, needle, i) {
            return Some(i);
        }
        if i == last {
            assert(first_occurrence_from(hay@, needle@, i + 1) is None);
            return None;
        }
        i = i + 1;
    }
}

/// Whether `needle` stands in `s` at the character position `at`.
pub fn stands_at(s: &str, needle: &str, at: usize) -> (r: bool)
    ensures
        r == occurs_at(s@, needle@, at as int),
{
    matches_at(&chars_of(s), &chars_of(needle), at)
}

/// The position of the first occurrence of `needle` in `s`, counted in
/// characters.
pub fn find_text(s: &str, needle: &str) -> (r: Option<usize>)
    ensures
        match r {
            Some(i) => first_occurrence(s@, needle@) == Some(i as int),
            None => first_occurrence(s@, needle@) is None,
        },
{
    find_in(&chars_of(s), &chars_of(needle))
}

/// `needle` occurs in `hay` as a contiguous run of characters.
pub open spec fn is_infix(needle: Seq<char>, hay: Seq<char>) -> bool {
    exists|i: int|
        0 <= i && i + needle.len() <= hay.len() && #[trigger] hay.subrange(
            i,
            i + needle.len(),
        ) == needle
}

/// Whether `needle` is a substring of `hay`.
pub fn contains_text(hay: &str, needle: &str) -> (r: bool)
    ensures
        r == is_infix(needle@, hay@),
{
    proof {
        lemma_first_occurrence_from(hay@, needle@, 0);
    }
    match find_text(hay, needle) {
        Some(i) => {
            assert(occurs_at(hay@, needle@, i as int));
            true
        },
        None => {
            assert forall|i: int|
                0 <= i && i + needle@.len() <= hay@.len() implies #[trigger] hay@.subrange(
                i,
                i + needle@.len(),
            ) != needle@ by {
                assert(!occurs_at(hay@, needle@, i));
            }
            false
        },
    }
}

/// Whether `s` starts with `prefix`.
pub fn starts_with_text(s: &str, prefix: &str) -> (r: bool)
    ensures
        r == prefix@.is_prefix_of(s@),
{
    stands_at(s, prefix, 0)
}

/// How many characters at the start of `s` are white space.
pub open spec fn leading_spaces(s: Seq<char>) -> nat
    decreases s.len(),
{
    if s.len() > 0 && white_space(s[0]) {
        1 + leading_spaces(s.drop_first())
    } else {
        0
    }
}

/// How many characters at the end of `s` are white space.
pub open spec fn trailing_spaces(s: Seq<char>) -> nat
    decreases s.len(),
{
    if s.len() > 0 && white_space(s.last()) {
        1 + trailing_spaces(s.drop_last())
    } else {
        0
    }
}

/// `s` without its leading and trailing white space.
pub open spec fn trimmed(s: Seq<char>) -> Seq<char> {
    let rest: Seq<char> = s.subrange(leading_spaces(s) as int, s.len() as int);
    rest.subrange(0, rest.len() - trailing_spaces(rest))
}

/// The leading white space ends before the first character that is none.
pub proof fn lemma_leading_spaces(s: Seq<char>)
    ensures
        leading_spaces(s) <= s.len(),
        leading_spaces(s) < s.len() ==> !white_space(s[leading_spaces(s) as int]),
    decreases s.len(),
{
    if s.len() > 0 && white_space(s[0]) {
        lemma_leading_spaces(s.drop_first());
        let k = leading_spaces(s.drop_first());
        if k < s.drop_first().len() {
            assert(s.drop_first()[k as int] == s[k as int + 1]);
        }
    }
}

/// The trailing white space begins after the last character that is none.
pub proof fn lemma_trailing_spaces(s: Seq<char>)
    ensures
        trailing_spaces(s) <= s.len(),
        trailing_spaces(s) < s.len() ==> !white_space(s[s.len() - trailing_spaces(s) - 1]),
    decreases s.len(),
{
    if s.len() > 0 && white_space(s.last()) {
        lemma_trailing_spaces(s.drop_last());
        let k = trailing_spaces(s.drop_last());
        if k < s.drop_last().len() {
            assert(s.drop_last()[s.drop_last().len() - k - 1] == s[s.len() - (k + 1) - 1]);
        }
    }
}

/// Trimming a trimmed text changes nothing.
pub proof fn lemma_trimmed_twice(s: Seq<char>)
    ensures
        trimmed(trimmed(s)) == trimmed(s),
{
    lemma_leading_spaces(s);
    let rest = s.subrange(leading_spaces(s) as int, s.len() as int);
    lemma_trailing_spaces(rest);
    let t = trimmed(s);
    assert(t == rest.subrange(0, rest.len() - trailing_spaces(rest)));
    if t.len() > 0 {
        assert(t[0] == rest[0]);
        assert(rest[0] == s[leading_spaces(s) as int]);
        assert(!white_space(t[0]));
        assert(t.last() == rest[rest.len() - trailing_spaces(rest) - 1]);
        assert(!white_space(t.last()));
    }
    assert(leading_spaces(t) == 0);
    assert(trailing_spaces(t) == 0);
    assert(t.subrange(0, t.len() as int) =~= t);
}

/// The text without its leading and trailing white space.
pub fn trim_text(s: &str) -> (r: String)
    ensures
        r@ == trimmed(s@),
{
    let v = chars_of(s);
    let n = v.len();
    let mut start: usize = 0;
    assert(s@.subrange(0, n as int) =~= s@);
    while start < n && is_white_space(v[start])
        invariant
            start <= n,
            n == v.len(),
            v@ == s@,
            leading_spaces(s@) == start + leading_spaces(s@.subrange(start as int, n as int)),
        decreases n - start,
    {
        assert(s@.subrange(start as int, n as int).drop_first() =~= s@.subrange(
            start + 1,
            n as int,
        ));
        start = start + 1;
    }
    let ghost rest = s@.subrange(start as int, n as int);
    assert(leading_spaces(rest) == 0);
    assert(leading_spaces(s@) == start);
    let mut end: usize = n;
    assert(rest.subrange(0, end - start) =~= rest);
    while end > start && is_white_space(v[end - 1])
        invariant
            start <= end <= n,
            n == v.len(),
            v@ == s@,
            rest == s@.subrange(start as int, n as int),
            trailing_spaces(rest) == (n - end) + trailing_spaces(rest.subrange(0, end - start)),
        decreases end - start,
    {
        assert(rest.subrange(0, end - start).drop_last() =~= rest.subrange(0, end - 1 - start));
        assert(rest.subrange(0, end - start).last() == v[end - 1]);
        end = end - 1;
    }
    proof {
        let kept = rest.subrange(0, end - start);
        if end > start {
            assert(kept.last() == v[end - 1]);
        }
        assert(trailing_spaces(kept) == 0);
        assert(kept =~= s@.subrange(start as int, end as int));
    }
    text_of(&v, start, end)
}

/// `a` comes strictly before `b` when texts are ordered character by
/// character, by code point, a proper prefix coming first.
pub open spec fn text_lt(a: Seq<char>, b: Seq<char>) -> bool
    decreases a.len(),
{
    if b.len() == 0 {
        false
    } else if a.len() == 0 {
        true
    } else if (a[0] as u32) < (b[0] as u32) {
        true
    } else if (a[0] as u32) > (b[0] as u32) {
        false
    } else {
        text_lt(a.drop_first(), b.drop_first())
    }
}

/// `a` does not come after `b`.
pub open spec fn text_le(a: Seq<char>, b: Seq<char>) -> bool {
    !text_lt(b, a)
}

/// Whether `a` comes strictly before `b`.
pub fn text_before(a: &str, b: &str) -> (r: bool)
    ensures
        r == text_lt(a@, b@),
{
    let x = chars_of(a);
    let y = chars_of(b);
    let mut i: usize = 0;
    assert(a@.subrange(0, x.len() as int) =~= a@);
    assert(b@.subrange(0, y.len() as int) =~= b@);
    loop
        invariant
            i <= x.len(),
            i <= y.len(),
            x@ == a@,
            y@ == b@,
            text_lt(a@, b@) == text_lt(
                a@.subrange(i as int, x.len() as int),
                b@.subrange(i as int, y.len() as int),
            ),
        decreases x.len() - i,
    {
        if i == y.len() {
            return false;
        }
        if i == x.len() {
            return true;
        }
        let p: u32 = x[i] as u32;
        let q: u32 = y[i] as u32;
        if p < q {
            return true;
        }
        if p > q {
            return false;
        }
        assert(a@.subrange(i as int, x.len() as int).drop_first() =~= a@.subrange(
            i + 1,
            x.len() as int,
        ));
        assert(b@.subrange(i as int, y.len() as int).drop_first() =~= b@.subrange(
            i + 1,
            y.len() as int,
        ));
        i = i + 1;
    }
}

/// Of two texts, at most one comes strictly before the other.
pub proof fn lemma_text_lt_asymmetric(a: Seq<char>, b: Seq<char>)
    ensures
        !(text_lt(a, b) && text_lt(b, a)),
    decreases a.len(),
{
    if a.len() > 0 && b.len() > 0 && (a[0] as u32) == (b[0] as u32) {
        lemma_text_lt_asymmetric(a.drop_first(), b.drop_first());
    }
}

/// "Does not come after" is transitive.
pub proof fn lemma_text_le_transitive(a: Seq<char>, b: Seq<char>, c: Seq<char>)
    requires
        text_le(a, b),
        text_le(b, c),
    ensures
        text_le(a, c),
    decreases a.len(),
{
    if a.len() > 0 && b.len() > 0 && c.len() > 0 {
        if (a[0] as u32) == (b[0] as u32) && (b[0] as u32) == (c[0] as u32) {
            lemma_text_le_transitive(a.drop_first(), b.drop_first(), c.drop_first());
        }
    }
}

/// The decimal digit for `d`, for `d` below ten.
pub open spec fn digit_char(d: int) -> char {
    if d == 0 {
        '0'
    } else if d == 1 {
        '1'
    } else if d == 2 {
        '2'
    } else if d == 3 {
        '3'
    } else if d == 4 {
        '4'
    } else if d == 5 {
        '5'
    } else if d == 6 {
        '6'
    } else if d == 7 {
        '7'
    } else if d == 8 {
        '8'
    } else {
        '9'
    }
}

/// The value of a decimal digit.
pub open spec fn digit_value(c: char) -> Option<int> {
    if c == '0' {
        Some(0)
    } else if c == '1' {
        Some(1)
    } else if c == '2' {
        Some(2)
    } else if c == '3' {
        Some(3)
    } else if c == '4' {
        Some(4)
    } else if c == '5' {
        Some(5)
    } else if c == '6' {
        Some(6)
    } else if c == '7' {
        Some(7)
    } else if c == '8' {
        Some(8)
    } else if c == '9' {
        Some(9)
    } else {
        None
    }
}

fn digit(d: usize) -> (c: char)
    requires
        d < 10,
    ensures
        c == digit_char(d as int),
{
    if d == 0 {
        '0'
    } else if d == 1 {
        '1'
    } else if d == 2 {
        '2'
    } else if d == 3 {
        '3'
    } else if d == 4 {
        '4'
    } else if d == 5 {
        '5'
    } else if d == 6 {
        '6'
    } else if d == 7 {
        '7'
    } else if d == 8 {
        '8'
    } else {
        '9'
    }
}

fn value_of_digit(c: char) -> (r: Option<u16>)
    ensures
        match r {
            Some(d) => digit_value(c) == Some(d as int) && d < 10,
            None => digit_value(c) is None,
        },
{
    if c == '0' {
        Some(0)
    } else if c == '1' {
        Some(1)
    } else if c == '2' {
        Some(2)
    } else if c == '3' {
        Some(3)
    } else if c == '4' {
        Some(4)
    } else if c == '5' {
        Some(5)
    } else if c == '6' {
        Some(6)
    } else if c == '7' {
        Some(7)
    } else if c == '8' {
        Some(8)
    } else if c == '9' {
        Some(9)
    } else {
        None
    }
}

/// A number written in decimal, without sign or leading zeros.
pub open spec fn decimal(n: nat) -> Seq<char>
    decreases n,
{
    if n < 10 {
        seq![digit_char(n as int)]
    } else {
        decimal(n / 10).push(digit_char((n % 10) as int))
    }
}

/// A count written in decimal.
pub open spec fn count_text(n: usize) -> Seq<char> {
    decimal(n as nat)
}

/// A small number written in decimal, without sign or leading zeros.
pub open spec fn decimal_of(n: u8) -> Seq<char> {
    if n < 10 {
        seq![digit_char(n as int)]
    } else if n < 100 {
        seq![digit_char(n as int / 10), digit_char(n as int % 10)]
    } else {
        seq![digit_char(n as int / 100), digit_char((n as int / 10) % 10), digit_char(n as int % 10)]
    }
}

fn push_decimal(n: usize, out: &mut Vec<char>)
    ensures
        final(out)@ == old(out)@ + decimal(n as nat),
    decreases n,
{
    if n < 10 {
        out.push(digit(n));
        assert(out@ =~= old(out)@ + decimal(n as nat));
    } else {
        push_decimal(n / 10, out);
        out.push(digit(n % 10));
        assert(out@ =~= old(out)@ + decimal(n as nat));
    }
}

/// The count in decimal.
pub fn count_to_text(n: usize) -> (r: String)
    ensures
        r@ == count_text(n),
{
    let mut digits: Vec<char> = Vec::new();
    push_decimal(n, &mut digits);
    assert(digits@ =~= decimal(n as nat));
    text_of(&digits, 0, digits.len())
}

/// The small number in decimal.
pub fn small_number_text(n: u8) -> (r: String)
    ensures
        r@ == decimal_of(n),
{
    let v: usize = n as usize;
    let mut digits: Vec<char> = Vec::new();
    if v >= 100 {
        digits.push(digit(v / 100));
    }
    if v >= 10 {
        digits.push(digit((v / 10) % 10));
    }
    digits.push(digit(v % 10));
    assert(digits@ =~= decimal_of(n));
    text_of(&digits, 0, digits.len())
}

/// The number that a run of decimal digits writes, if every character is a digit.
pub open spec fn digits_value(s: Seq<char>) -> Option<int>
    decreases s.len(),
{
    if s.len() == 0 {
        Some(0)
    } else {
        match (digits_value(s.drop_last()), digit_value(s.last())) {
            (Some(high), Some(low)) => Some(high * 10 + low),
            _ => None,
        }
    }
}

/// The number below 256 that a text writes: an optional `+`, then one or
/// more decimal digits and nothing else.
pub open spec fn small_number(s: Seq<char>) -> Option<u8> {
    let digits: Seq<char> = if s.len() > 0 && s[0] == '+' {
        s.drop_first()
    } else {
        s
    };
    if digits.len() == 0 {
        None
    } else {
        match digits_value(digits) {
            Some(v) => if v <= 255 {
                Some(v as u8)
            } else {
                None
            },
            None => None,
        }
    }
}

/// What the first `k` digits write bounds what all of them write: where
/// the first `k` are not all digits neither are all, and the value of all
/// is no smaller than that of the first `k`.
pub proof fn lemma_digits_value_grows(s: Seq<char>, k: int)
    requires
        0 <= k <= s.len(),
    ensures
        match digits_value(s.subrange(0, k)) {
            None => digits_value(s) is None,
            Some(v) => v >= 0 && (match digits_value(s) {
                None => true,
                Some(w) => w >= v,
            }),
        },
    decreases s.len() - k,
{
    lemma_digits_value_nonnegative(s.subrange(0, k));
    if k == s.len() {
        assert(s.subrange(0, k) =~= s);
    } else {
        assert(s.subrange(0, k + 1).drop_last() =~= s.subrange(0, k));
        lemma_digits_value_grows(s, k + 1);
    }
}

/// What digits write is not negative.
pub proof fn lemma_digits_value_nonnegative(s: Seq<char>)
    ensures
        digits_value(s) matches Some(v) ==> v >= 0,
    decreases s.len(),
{
    if s.len() > 0 {
        lemma_digits_value_nonnegative(s.drop_last());
    }
}

/// The number below 256 that the text writes.
pub fn parse_small_number(s: &str) -> (r: Option<u8>)
    ensures
        r == small_number(s@),
{
    let v = chars_of(s);
    let n = v.len();
    let start: usize = if n > 0 && v[0] == '+' {
        1
    } else {
        0
    };
    let ghost digits = s@.subrange(start as int, n as int);
    assert(digits =~= (if s@.len() > 0 && s@[0] == '+' {
        s@.drop_first()
    } else {
        s@
    }));
    if start == n {
        return None;
    }
    let mut acc: u16 = 0;
    let mut i: usize = start;
    assert(digits.subrange(0, 0) =~= Seq::<char>::empty());
    while i < n
        invariant
            start <= i <= n,
            n == v.len(),
            v@ == s@,
            digits == s@.subrange(start as int, n as int),
            digits == (if s@.len() > 0 && s@[0] == '+' {
                s@.drop_first()
            } else {
                s@
            }),
            digits.len() > 0,
            acc <= 255,
            digits_value(digits.subrange(0, i - start)) == Some(acc as int),
        decreases n - i,
    {
        let ghost upto = digits.subrange(0, i + 1 - start);
        assert(upto.drop_last() =~= digits.subrange(0, i - start));
        assert(upto.last() == v[i as int]);
        proof {
            lemma_digits_value_grows(digits, i + 1 - start);
        }
        let d = match value_of_digit(v[i]) {
            Some(d) => d,
            None => {
                assert(digits_value(upto) is None);
                return None;
            },
        };
        let next: u16 = acc * 10 + d;
        assert(digits_value(upto) == Some(next as int));
        if next > 255 {
            return None;
        }
        acc = next;
        i = i + 1;
    }
    assert(digits.subrange(0, n - start) =~= digits);
    Some(acc as u8)
}

/// Reading back a number written in decimal gives the number.
pub proof fn lemma_decimal_round_trip(n: u8)
    ensures
        small_number(decimal_of(n)) == Some(n),
{
    let s = decimal_of(n);
    reveal_with_fuel(digits_value, 4);
    if n < 10 {
        assert(s.drop_last() =~= Seq::<char>::empty());
    } else if n < 100 {
        assert(s.drop_last() =~= seq![digit_char(n as int / 10)]);
        assert(s.drop_last().drop_last() =~= Seq::<char>::empty());
    } else {
        assert(s.drop_last() =~= seq![digit_char(n as int / 100), digit_char((n as int / 10) % 10)]);
        assert(s.drop_last().drop_last() =~= seq![digit_char(n as int / 100)]);
        assert(s.drop_last().drop_last().drop_last() =~= Seq::<char>::empty());
    }
}

/// The position of the first occurrence of `c` in `s` at or after `from`.
pub open spec fn first_index_from(s: Seq<char>, c: char, from: int) -> Option<int>
    decreases s.len() - from,
{
    if from < 0 || from >= s.len() {
        None
    } else if s[from] == c {
        Some(from)
    } else {
        first_index_from(s, c, from + 1)
    }
}

/// The position of the first occurrence of `c` in `s`.
pub open spec fn first_index(s: Seq<char>, c: char) -> Option<int> {
    first_index_from(s, c, 0)
}

/// What `first_index_from` finds: the first position at or after `from`
/// that holds `c`, or nothing where none does.
pub proof fn lemma_first_index_from(s: Seq<char>, c: char, from: int)
    requires
        0 <= from,
    ensures
        match first_index_from(s, c, from) {
            Some(i) => from <= i < s.len() && s[i] == c && forall|j: int| from <= j < i ==> s[j] != c,
            None => forall|j: int| from <= j < s.len() ==> s[j] != c,
        },
    decreases s.len() - from,
{
    if from < s.len() && s[from] != c {
        lemma_first_index_from(s, c, from + 1);
    }
}

/// The position of the first occurrence of `c` in `s`, counted in characters.
pub fn find_char(s: &str, c: char) -> (r: Option<usize>)
    ensures
        match r {
            Some(i) => first_index(s@, c) == Some(i as int),
            None => first_index(s@, c) is None,
        },
{
    let v = chars_of(s);
    let mut i: usize = 0;
    while i < v.len()
        invariant
            i <= v.len(),
            v@ == s@,
            first_index(s@, c) == first_index_from(s@, c, i as int),
        decreases v.len() - i,
    {
        if v[i] == c {
            return Some(i);
        }
        i = i + 1;
    }
    None
}

/// The texts joined with `sep` between each two.
pub open spec fn joined_with(items: Seq<Seq<char>>, sep: Seq<char>) -> Seq<char>
    decreases items.len(),
{
    if items.len() == 0 {
        Seq::empty()
    } else if items.len() == 1 {
        items[0]
    } else {
        joined_with(items.drop_last(), sep) + sep + items.last()
    }
}

/// The strings joined with `sep` between each two.
pub fn join_texts(items: &Vec<String>, sep: &str) -> (r: String)
    ensures
        r@ == joined_with(texts(items@), sep@),
{
    let mut out = String::new();
    let ghost all = texts(items@);
    let mut i: usize = 0;
    assert(all.subrange(0, 0) =~= Seq::<Seq<char>>::empty());
    while i < items.len()
        invariant
            i <= items.len(),
            all == texts(items@),
            out@ == joined_with(all.subrange(0, i as int), sep@),
        decreases items.len() - i,
    {
        assert(all.subrange(0, i + 1).drop_last() =~= all.subrange(0, i as int));
        assert(all.subrange(0, i + 1).last() == items[i as int]@);
        if i > 0 {
            out.append(sep);
        } else {
            assert(out@ + items[i as int]@ =~= items[i as int]@);
        }
        out.append(items[i].as_str());
        i = i + 1;
    }
    assert(all.subrange(0, items.len() as int) =~= all);
    out
}

/// The first `n` characters of `s`, or all of it where it is shorter.
pub fn prefix_of(s: &str, n: usize) -> (r: String)
    ensures
        r@ == s@.subrange(0, if n <= s@.len() { n as int } else { s@.len() as int }),
{
    let v = chars_of(s);
    let end = if n <= v.len() {
        n
    } else {
        v.len()
    };
    text_of(&v, 0, end)
}

/// The text with `c` put in at the character position `at`; at the end
/// where `at` is past it.
pub fn insert_char(s: &str, at: usize, c: char) -> (r: String)
    ensures
        r@ == s@.insert(if at <= s@.len() { at as int } else { s@.len() as int }, c),
{
    let v = chars_of(s);
    let n = v.len();
    let pos = if at <= n {
        at
    } else {
        n
    };
    let head = text_of(&v, 0, pos);
    let tail = text_of(&v, pos, n);
    let mid = char_text(c);
    let a = joined(head.as_str(), mid.as_str());
    let out = joined(a.as_str(), tail.as_str());
    assert(out@ =~= s@.insert(pos as int, c));
    out
}

/// The text without the character at position `at`; unchanged where there
/// is no such position.
pub fn remove_char(s: &str, at: usize) -> (r: String)
    ensures
        r@ == (if at < s@.len() { s@.remove(at as int) } else { s@ }),
{
    let v = chars_of(s);
    let n = v.len();
    if at >= n {
        return String::from_str(s);
    }
    let head = text_of(&v, 0, at);
    let tail = text_of(&v, at + 1, n);
    let out = joined(head.as_str(), tail.as_str());
    assert(out@ =~= s@.remove(at as int));
    out
}

} // verus!
