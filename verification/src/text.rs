//! Strings as sequences of characters: the searching, splitting and rendering
//! that the other modules are stated over.

use vstd::prelude::*;

verus! {

/// `String::push` appends one character to the end of the string.
pub assume_specification[ String::push ](s: &mut String, c: char)
    ensures
        final(s)@ == old(s)@.push(c),
;

/// What `str::to_lowercase` returns for a string.
pub uninterp spec fn lowercase(s: Seq<char>) -> Seq<char>;

/// A capital letter of ASCII as the small one, any other character as it is.
pub open spec fn small_letter(c: char) -> char {
    if 'A' <= c <= 'Z' {
        ((c as u32) + 32) as char
    } else {
        c
    }
}

/// The text with the capital letters of ASCII made small.
pub open spec fn small_letters(s: Seq<char>) -> Seq<char> {
    s.map_values(|c: char| small_letter(c))
}

/// Calls `str::to_lowercase`. Its result is a function of the string alone. In a
/// text that is all ASCII each capital letter becomes the small one and nothing else
/// changes; which other character maps to which is left to the Unicode tables of
/// `std`.
#[verifier::external_body]
pub(crate) fn to_lowercase(s: &str) -> (r: String)
    ensures
        r@ == lowercase(s@),
        vstd::utf8::is_ascii_chars(s@) ==> r@ == small_letters(s@),
{
    s.to_lowercase()
}

/// What the `Debug` formatting of a string slice renders: the string in double
/// quotes, with escapes.
pub uninterp spec fn debug_text(s: Seq<char>) -> Seq<char>;

/// Formats a string slice with `Debug` (`{:?}`). The rendering is a function of
/// the string alone; the escapes are those of `std`.
#[verifier::external_body]
pub(crate) fn quote(s: &str) -> (r: String)
    ensures
        r@ == debug_text(s@),
{
    format!("{:?}", s)
}

/// What `String::from_utf8_lossy` makes of bytes.
pub uninterp spec fn lossy_text(bytes: Seq<u8>) -> Seq<char>;

/// Calls `String::from_utf8_lossy`. Valid UTF-8 gives the text it encodes; in
/// other bytes each ill-formed part is replaced, in the way that `std` has it.
#[verifier::external_body]
pub(crate) fn from_bytes(bytes: &[u8]) -> (r: String)
    ensures
        r@ == lossy_text(bytes@),
        vstd::utf8::valid_utf8(bytes@) ==> r@ == vstd::utf8::decode_utf8(bytes@),
{
    String::from_utf8_lossy(bytes).into_owned()
}

/// The characters of a string, in order.
pub fn chars_of(s: &str) -> (r: Vec<char>)
    ensures
        r@ == s@,
{
    let mut out: Vec<char> = Vec::new();
    for c in it: s.chars()
        invariant
            out@ == it.seq().take(it.index()),
            it.seq() == s@,
    {
        out.push(c);
    }
    out
}

/// The string made of the given characters.
pub fn string_of(s: &[char]) -> (r: String)
    ensures
        r@ == s@,
{
    let mut out = String::new();
    for i in 0..s.len()
        invariant
            out@ == s@.take(i as int),
    {
        out.push(s[i]);
    }
    assert(s@.take(s@.len() as int) =~= s@);
    out
}

// ---------------------------------------------------------------- whitespace

/// Unicode's `White_Space` property, which `str::trim` goes by.
pub open spec fn is_space(c: char) -> bool {
    ||| '\u{9}' <= c <= '\u{d}'
    ||| c == ' '
    ||| c == '\u{85}'
    ||| c == '\u{a0}'
    ||| c == '\u{1680}'
    ||| '\u{2000}' <= c <= '\u{200a}'
    ||| c == '\u{2028}'
    ||| c == '\u{2029}'
    ||| c == '\u{202f}'
    ||| c == '\u{205f}'
    ||| c == '\u{3000}'
}

pub fn space_char(c: char) -> (r: bool)
    ensures
        r == is_space(c),
{
    ('\u{9}' <= c && c <= '\u{d}') || c == ' ' || c == '\u{85}' || c == '\u{a0}' || c == '\u{1680}'
        || ('\u{2000}' <= c && c <= '\u{200a}') || c == '\u{2028}' || c == '\u{2029}' || c
        == '\u{202f}' || c == '\u{205f}' || c == '\u{3000}'
}

/// `s` without its trailing whitespace.
pub open spec fn trimmed_end(s: Seq<char>) -> Seq<char>
    decreases s.len(),
{
    if s.len() > 0 && is_space(s.last()) {
        trimmed_end(s.drop_last())
    } else {
        s
    }
}

/// `s` without its leading whitespace.
pub open spec fn trimmed_start(s: Seq<char>) -> Seq<char>
    decreases s.len(),
{
    if s.len() > 0 && is_space(s.first()) {
        trimmed_start(s.drop_first())
    } else {
        s
    }
}

/// `s` without whitespace at either end.
pub open spec fn trimmed(s: Seq<char>) -> Seq<char> {
    trimmed_start(trimmed_end(s))
}

pub fn trim_end(s: &[char]) -> (r: &[char])
    ensures
        r@ == trimmed_end(s@),
{
    let mut n: usize = s.len();
    assert(s@.take(n as int) =~= s@);
    while n > 0 && space_char(s[n - 1])
        invariant
            n <= s@.len(),
            trimmed_end(s@) == trimmed_end(s@.take(n as int)),
        decreases n,
    {
        assert(s@.take(n as int).drop_last() =~= s@.take(n - 1));
        n -= 1;
    }
    assert(s@.subrange(0, n as int) =~= s@.take(n as int));
    vstd::slice::slice_subrange(s, 0, n)
}

pub fn trim(s: &[char]) -> (r: &[char])
    ensures
        r@ == trimmed(s@),
{
    let t = trim_end(s);
    let mut i: usize = 0;
    assert(t@.skip(0) =~= t@);
    while i < t.len() && space_char(t[i])
        invariant
            i <= t@.len(),
            trimmed_start(t@) == trimmed_start(t@.skip(i as int)),
        decreases t@.len() - i,
    {
        assert(t@.skip(i as int).drop_first() =~= t@.skip(i + 1));
        i += 1;
    }
    assert(t@.subrange(i as int, t@.len() as int) =~= t@.skip(i as int));
    vstd::slice::slice_subrange(t, i, t.len())
}

// ------------------------------------------------------- comparing, searching

/// Do the two strings hold the same characters?
pub fn same_text(a: &str, b: &str) -> (r: bool)
    ensures
        r == (a@ == b@),
{
    let x = chars_of(a);
    let y = chars_of(b);
    same_chars(x.as_slice(), y.as_slice())
}

pub fn same_chars(a: &[char], b: &[char]) -> (r: bool)
    ensures
        r == (a@ == b@),
{
    if a.len() != b.len() {
        return false;
    }
    for i in 0..a.len()
        invariant
            a@.len() == b@.len(),
            forall|j: int| 0 <= j < i ==> a@[j] == b@[j],
    {
        if a[i] != b[i] {
            return false;
        }
    }
    assert(a@ =~= b@);
    true
}

/// Does `key` stand in `s` at position `i`?
pub open spec fn occurs_at(s: Seq<char>, key: Seq<char>, i: int) -> bool {
    0 <= i && i + key.len() <= s.len() && s.subrange(i, i + key.len()) == key
}

/// Does `key` stand anywhere in `s`?
pub open spec fn mentions(s: Seq<char>, key: Seq<char>) -> bool {
    exists|i: int| #[trigger] occurs_at(s, key, i)
}

pub open spec fn begins_with(s: Seq<char>, key: Seq<char>) -> bool {
    occurs_at(s, key, 0)
}

pub open spec fn finishes_with(s: Seq<char>, key: Seq<char>) -> bool {
    occurs_at(s, key, s.len() - key.len())
}

fn holds_at(s: &[char], key: &[char], i: usize) -> (r: bool)
    requires
        i <= s@.len(),
    ensures
        r == occurs_at(s@, key@, i as int),
{
    let n: usize = s.len();
    if key.len() > n - i {
        return false;
    }
    let part = vstd::slice::slice_subrange(s, i, i + key.len());
    same_chars(part, key)
}

/// Does `s` mention `key`?
pub fn contains_text(s: &[char], key: &str) -> (r: bool)
    ensures
        r == mentions(s@, key@),
{
    let k = chars_of(key);
    if k.len() > s.len() {
        return false;
    }
    let last: usize = s.len() - k.len();
    let mut i: usize = 0;
    while i <= last
        invariant
            k@ == key@,
            last + k@.len() == s@.len(),
            i <= last + 1,
            forall|j: int| 0 <= j < i ==> !#[trigger] occurs_at(s@, key@, j),
        decreases last + 1 - i,
    {
        if holds_at(s, k.as_slice(), i) {
            return true;
        }
        if i == last {
            return false;
        }
        i += 1;
    }
    false
}

/// What follows `key` at the start of `s`, if `s` starts with it.
pub fn strip_prefix<'a>(s: &'a [char], key: &str) -> (r: Option<&'a [char]>)
    ensures
        r is Some <==> begins_with(s@, key@),
        r matches Some(rest) ==> rest@ == s@.skip(key@.len() as int),
{
    let k = chars_of(key);
    if k.len() <= s.len() && holds_at(s, k.as_slice(), 0) {
        let rest = vstd::slice::slice_subrange(s, k.len(), s.len());
        assert(rest@ =~= s@.skip(key@.len() as int));
        Some(rest)
    } else {
        None
    }
}

pub fn starts_with(s: &[char], key: &str) -> (r: bool)
    ensures
        r == begins_with(s@, key@),
{
    strip_prefix(s, key).is_some()
}

/// What stands before `key` at the end of `s`, if `s` ends with it.
pub fn strip_suffix<'a>(s: &'a [char], key: &str) -> (r: Option<&'a [char]>)
    ensures
        r is Some <==> finishes_with(s@, key@),
        r matches Some(rest) ==> rest@ == s@.take(s@.len() - key@.len()),
{
    let k = chars_of(key);
    if k.len() <= s.len() && holds_at(s, k.as_slice(), s.len() - k.len()) {
        let rest = vstd::slice::slice_subrange(s, 0, s.len() - k.len());
        assert(rest@ =~= s@.take(s@.len() - key@.len()));
        Some(rest)
    } else {
        None
    }
}

pub fn ends_with(s: &[char], key: &str) -> (r: bool)
    ensures
        r == finishes_with(s@, key@),
{
    strip_suffix(s, key).is_some()
}

// ------------------------------------------------------------------ splitting

/// The first position of `c` in `s`, or the length of `s` if there is none.
pub open spec fn find_char(s: Seq<char>, c: char) -> int
    decreases s.len(),
{
    if s.len() == 0 || s[0] == c {
        0
    } else {
        1 + find_char(s.drop_first(), c)
    }
}

/// A position that holds `c` with no `c` before it is the first one.
pub proof fn lemma_find_char(s: Seq<char>, c: char, i: int)
    requires
        0 <= i <= s.len(),
        i < s.len() ==> s[i] == c,
        forall|j: int| 0 <= j < i ==> s[j] != c,
    ensures
        find_char(s, c) == i,
    decreases s.len(),
{
    if i > 0 {
        let t = s.drop_first();
        assert forall|j: int| 0 <= j < i - 1 implies t[j] != c by {
            assert(s[j + 1] != c);
        }
        lemma_find_char(t, c, i - 1);
    }
}

pub fn position_of(s: &[char], c: char) -> (r: usize)
    ensures
        r == find_char(s@, c),
        r <= s@.len(),
        r < s@.len() ==> s@[r as int] == c,
{
    let mut i: usize = 0;
    while i < s.len() && s[i] != c
        invariant
            i <= s@.len(),
            forall|j: int| 0 <= j < i ==> s@[j] != c,
        decreases s@.len() - i,
    {
        i += 1;
    }
    proof {
        lemma_find_char(s@, c, i as int);
    }
    i
}

/// The parts of `s` before and after its first `c`, if it holds one.
pub open spec fn split_first(s: Seq<char>, c: char) -> Option<(Seq<char>, Seq<char>)> {
    let i = find_char(s, c);
    if 0 <= i < s.len() {
        Some((s.take(i), s.skip(i + 1)))
    } else {
        None
    }
}

pub fn split_once<'a>(s: &'a [char], c: char) -> (r: Option<(&'a [char], &'a [char])>)
    ensures
        r is Some <==> split_first(s@, c) is Some,
        r matches Some(p) ==> split_first(s@, c) == Some((p.0@, p.1@)),
{
    let i = position_of(s, c);
    if i < s.len() {
        let a = vstd::slice::slice_subrange(s, 0, i);
        let b = vstd::slice::slice_subrange(s, i + 1, s.len());
        assert(a@ =~= s@.take(i as int));
        assert(b@ =~= s@.skip(i + 1));
        Some((a, b))
    } else {
        None
    }
}

/// A line without the carriage return of a two-character line ending.
pub open spec fn without_cr(s: Seq<char>) -> Seq<char> {
    if s.len() > 0 && s.last() == '\r' {
        s.drop_last()
    } else {
        s
    }
}

/// The lines of `s` as `str::lines` gives them: ended by a newline, or by a
/// carriage return and a newline; the last ending is optional.
pub open spec fn lines_of(s: Seq<char>) -> Seq<Seq<char>>
    decreases s.len(),
{
    let i = find_char(s, '\n');
    if s.len() == 0 {
        seq![]
    } else if 0 <= i < s.len() {
        seq![without_cr(s.take(i))] + lines_of(s.skip(i + 1))
    } else {
        seq![s]
    }
}

/// The sequences behind a sequence of slices.
pub open spec fn views(v: Seq<&[char]>) -> Seq<Seq<char>> {
    v.map_values(|l: &[char]| l@)
}

pub fn lines(s: &[char]) -> (r: Vec<&[char]>)
    ensures
        views(r@) == lines_of(s@),
{
    let mut out: Vec<&[char]> = Vec::new();
    let mut rest: &[char] = s;
    assert(views(out@) + lines_of(rest@) =~= lines_of(s@));
    while rest.len() > 0
        invariant
            views(out@) + lines_of(rest@) == lines_of(s@),
        decreases rest@.len(),
    {
        let ghost before = rest@;
        let ghost done = out@;
        let i = position_of(rest, '\n');
        if i < rest.len() {
            let mut end: usize = i;
            if i > 0 && rest[i - 1] == '\r' {
                end = i - 1;
            }
            let line = vstd::slice::slice_subrange(rest, 0, end);
            assert(line@ =~= without_cr(before.take(i as int)));
            out.push(line);
            rest = vstd::slice::slice_subrange(rest, i + 1, rest.len());
            assert(rest@ =~= before.skip(i + 1));
            assert(views(out@) =~= views(done).push(line@));
            assert(views(out@) + lines_of(rest@) =~= views(done) + lines_of(before));
        } else {
            out.push(rest);
            assert(views(out@) =~= views(done).push(before));
            rest = vstd::slice::slice_subrange(rest, i, rest.len());
            assert(views(out@) + lines_of(rest@) =~= views(done) + lines_of(before));
        }
    }
    assert(views(out@) + lines_of(rest@) =~= views(out@));
    out
}

// ------------------------------------------------------------------ rendering

pub open spec fn digit(d: int) -> char {
    if d == 0 { '0' }
    else if d == 1 { '1' }
    else if d == 2 { '2' }
    else if d == 3 { '3' }
    else if d == 4 { '4' }
    else if d == 5 { '5' }
    else if d == 6 { '6' }
    else if d == 7 { '7' }
    else if d == 8 { '8' }
    else if d == 9 { '9' }
    else if d == 10 { 'a' }
    else if d == 11 { 'b' }
    else if d == 12 { 'c' }
    else if d == 13 { 'd' }
    else if d == 14 { 'e' }
    else { 'f' }
}

fn digit_char(d: u64) -> (r: char)
    requires
        d < 16,
    ensures
        r == digit(d as int),
{
    match d {
        0 => '0',
        1 => '1',
        2 => '2',
        3 => '3',
        4 => '4',
        5 => '5',
        6 => '6',
        7 => '7',
        8 => '8',
        9 => '9',
        10 => 'a',
        11 => 'b',
        12 => 'c',
        13 => 'd',
        14 => 'e',
        _ => 'f',
    }
}

/// The decimal digits of `n`.
pub open spec fn decimal(n: nat) -> Seq<char>
    decreases n,
{
    if n < 10 {
        seq![digit(n as int)]
    } else {
        decimal(n / 10).push(digit((n % 10) as int))
    }
}

/// Appends the decimal digits of `n`.
pub fn push_decimal(out: &mut String, n: u64)
    ensures
        final(out)@ == old(out)@ + decimal(n as nat),
    decreases n,
{
    if n >= 10 {
        push_decimal(out, n / 10);
    }
    out.push(digit_char(n % 10));
    proof {
        let before = old(out)@;
        if n >= 10 {
            assert(decimal(n as nat) == decimal((n / 10) as nat).push(digit((n % 10) as int)));
            assert(out@ =~= before + decimal(n as nat));
        } else {
            assert(out@ =~= before + decimal(n as nat));
        }
    }
}

/// The sixteen hexadecimal digits of `h`, the most significant first.
pub open spec fn hex16(h: u64) -> Seq<char> {
    Seq::new(16, |i: int| digit(((h >> ((60 - 4 * i) as u64)) & 15) as int))
}

pub fn to_hex16(h: u64) -> (r: String)
    ensures
        r@ == hex16(h),
{
    let mut out = String::new();
    let mut i: u64 = 0;
    while i < 16
        invariant
            i <= 16,
            out@ == hex16(h).take(i as int),
        decreases 16 - i,
    {
        let shift: u64 = 60 - 4 * i;
        let d: u64 = (h >> shift) & 15;
        assert(d < 16) by (bit_vector)
            requires
                d == (h >> shift) & 15,
        ;
        out.push(digit_char(d));
        assert(out@ =~= hex16(h).take(i + 1));
        i += 1;
    }
    assert(hex16(h).take(16) =~= hex16(h));
    out
}

/// The first `n` of the given texts, with `sep` between each two.
pub open spec fn joined(parts: Seq<Seq<char>>, sep: Seq<char>, n: nat) -> Seq<char>
    decreases n,
{
    if n == 0 {
        seq![]
    } else if n == 1 {
        parts[0]
    } else {
        joined(parts, sep, (n - 1) as nat) + sep + parts[n - 1]
    }
}

/// The texts behind a sequence of strings.
pub open spec fn texts(v: Seq<String>) -> Seq<Seq<char>> {
    v.map_values(|s: String| s@)
}

/// The given strings with `sep` between each two.
pub fn join(parts: &Vec<String>, sep: &str) -> (r: String)
    ensures
        r@ == joined(texts(parts@), sep@, parts@.len()),
{
    let mut out = String::new();
    for i in 0..parts.len()
        invariant
            out@ == joined(texts(parts@), sep@, i as nat),
    {
        if i > 0 {
            out.append(sep);
        }
        out.append(parts[i].as_str());
        assert(out@ =~= joined(texts(parts@), sep@, (i + 1) as nat));
    }
    out
}

/// The `Debug` rendering of a list of strings.
pub open spec fn debug_list(parts: Seq<Seq<char>>) -> Seq<char> {
    seq!['['] + joined(parts.map_values(|s: Seq<char>| debug_text(s)), ", "@, parts.len()) + seq![
        ']',
    ]
}

pub fn quote_list(parts: &Vec<String>) -> (r: String)
    ensures
        r@ == debug_list(texts(parts@)),
{
    let mut quoted: Vec<String> = Vec::new();
    for i in 0..parts.len()
        invariant
            quoted@.len() == i,
            forall|j: int| 0 <= j < i ==> (#[trigger] quoted@[j])@ == debug_text(parts@[j]@),
    {
        quoted.push(quote(parts[i].as_str()));
    }
    assert(texts(quoted@) =~= texts(parts@).map_values(|s: Seq<char>| debug_text(s)));
    let mut out = String::new();
    out.push('[');
    out.append(join(&quoted, ", ").as_str());
    out.push(']');
    assert(out@ =~= debug_list(texts(parts@)));
    out
}

/// The concatenation of two texts.
pub fn cat(a: &str, b: &str) -> (r: String)
    ensures
        r@ == a@ + b@,
{
    let mut out = String::from_str(a);
    out.append(b);
    out
}

/// The texts behind a sequence of string slices.
pub open spec fn slices(v: Seq<&str>) -> Seq<Seq<char>> {
    v.map_values(|s: &str| s@)
}

/// The given string slices as strings.
pub fn words(parts: Vec<&str>) -> (r: Vec<String>)
    ensures
        texts(r@) == slices(parts@),
{
    let mut out: Vec<String> = Vec::new();
    for i in 0..parts.len()
        invariant
            texts(out@) == slices(parts@).take(i as int),
    {
        let ghost before = out@;
        out.push(String::from_str(parts[i]));
        assert(texts(out@) =~= texts(before).push(parts@[i as int]@));
        assert(texts(out@) =~= slices(parts@).take(i + 1));
    }
    assert(slices(parts@).take(parts@.len() as int) =~= slices(parts@));
    out
}

/// The lines of a text, as strings.
pub fn owned_lines(s: &str) -> (r: Vec<String>)
    ensures
        texts(r@) == lines_of(s@),
{
    let v = chars_of(s);
    let lines = lines(v.as_slice());
    let mut out: Vec<String> = Vec::new();
    for i in 0..lines.len()
        invariant
            texts(out@) == views(lines@).take(i as int),
    {
        let ghost before = out@;
        out.push(string_of(lines[i]));
        assert(texts(out@) =~= texts(before).push(lines@[i as int]@));
        assert(texts(out@) =~= views(lines@).take(i + 1));
    }
    assert(views(lines@).take(lines@.len() as int) =~= views(lines@));
    out
}

pub open spec fn is_digit(c: char) -> bool {
    '0' <= c <= '9'
}

pub open spec fn all_digits(s: Seq<char>) -> bool {
    forall|i: int| 0 <= i < s.len() ==> is_digit(#[trigger] s[i])
}

/// The number that decimal digits stand for.
pub open spec fn value_of(s: Seq<char>) -> nat
    decreases s.len(),
{
    if s.len() == 0 {
        0
    } else {
        (value_of(s.drop_last()) * 10 + (s.last() as int - '0' as int)) as nat
    }
}

/// The 32-bit number that a text stands for, as `str::parse` reads it: digits,
/// with or without a plus sign before them.
pub open spec fn number_in(s: Seq<char>) -> Option<u32> {
    let digits = if s.len() > 0 && s[0] == '+' {
        s.skip(1)
    } else {
        s
    };
    if digits.len() > 0 && all_digits(digits) && value_of(digits) <= u32::MAX {
        Some(value_of(digits) as u32)
    } else {
        None
    }
}

proof fn lemma_value_grows(s: Seq<char>, i: int)
    requires
        0 <= i <= s.len(),
        all_digits(s),
    ensures
        value_of(s.take(i)) <= value_of(s),
    decreases s.len() - i,
{
    if i < s.len() {
        lemma_value_grows(s, i + 1);
        assert(s.take(i + 1).drop_last() =~= s.take(i));
        assert(is_digit(s[i]));
    } else {
        assert(s.take(i) =~= s);
    }
}

pub fn parse_u32(s: &[char]) -> (r: Option<u32>)
    ensures
        r == number_in(s@),
{
    let start: usize = if s.len() > 0 && s[0] == '+' {
        1
    } else {
        0
    };
    if start == s.len() {
        return None;
    }
    let ghost digits = if s@.len() > 0 && s@[0] == '+' {
        s@.skip(1)
    } else {
        s@
    };
    assert(digits =~= s@.skip(start as int));
    let mut n: u64 = 0;
    for i in start..s.len()
        invariant
            start <= i <= s@.len(),
            start < s@.len(),
            digits == s@.skip(start as int),
            digits.len() > 0,
            number_in(s@) == (if digits.len() > 0 && all_digits(digits) && value_of(digits)
                <= u32::MAX {
                Some(value_of(digits) as u32)
            } else {
                None
            }),
            forall|j: int| 0 <= j < i - start ==> is_digit(#[trigger] digits[j]),
            n == value_of(digits.take(i - start)),
            n <= u32::MAX,
    {
        let c = s[i];
        let ghost k = i - start;
        assert(digits[k] == c);
        if !('0' <= c && c <= '9') {
            assert(!is_digit(digits[k]));
            return None;
        }
        assert(digits.take(k + 1).drop_last() =~= digits.take(k));
        n = n * 10 + (c as u64 - '0' as u64);
        if n > u32::MAX as u64 {
            proof {
                if all_digits(digits) {
                    lemma_value_grows(digits, k + 1);
                }
            }
            return None;
        }
    }
    assert(digits.take(digits.len() as int) =~= digits);
    Some(n as u32)
}

// ---------------------------------------------------------------------- paths

/// `dir` with the relative name `name` below it.
pub open spec fn path_below(dir: Seq<char>, name: Seq<char>) -> Seq<char> {
    if dir.len() == 0 {
        name
    } else if dir.last() == '/' {
        dir + name
    } else {
        dir + seq!['/'] + name
    }
}

pub fn path_join(dir: &str, name: &str) -> (r: String)
    ensures
        r@ == path_below(dir@, name@),
{
    let d = chars_of(dir);
    let mut out = String::from_str(dir);
    if d.len() > 0 && d[d.len() - 1] != '/' {
        out.push('/');
    }
    out.append(name);
    assert(out@ =~= path_below(dir@, name@));
    out
}

// ----------------------------------------------------------------------- laws

/// Is it space and nothing else?
pub open spec fn all_space(s: Seq<char>) -> bool {
    forall|i: int| 0 <= i < s.len() ==> is_space(#[trigger] s[i])
}

/// Space is the tab, the line breaks, the blank, and the other characters that Unicode
/// counts as white: nothing printable is among them.
pub proof fn law_what_is_space(c: char)
    ensures
        ({
            let n = c as int;
            is_space(c) <==> {
                ||| 9 <= n <= 13
                ||| n == 32
                ||| n == 0x85
                ||| n == 0xa0
                ||| n == 0x1680
                ||| 0x2000 <= n <= 0x200a
                ||| n == 0x2028
                ||| n == 0x2029
                ||| n == 0x202f
                ||| n == 0x205f
                ||| n == 0x3000
            }
        }),
{
}

proof fn lemma_trim_start(lead: Seq<char>, s: Seq<char>)
    requires
        all_space(lead),
        s.len() > 0 ==> !is_space(s[0]),
    ensures
        trimmed_start(lead + s) == s,
    decreases lead.len(),
{
    let whole = lead + s;
    if lead.len() > 0 {
        assert(is_space(lead[0]));
        assert(whole.drop_first() =~= lead.drop_first() + s);
        lemma_trim_start(lead.drop_first(), s);
    } else {
        assert(whole =~= s);
    }
}

proof fn lemma_trim_end(s: Seq<char>, tail: Seq<char>)
    requires
        all_space(tail),
        s.len() > 0 ==> !is_space(s.last()),
    ensures
        trimmed_end(s + tail) == s,
    decreases tail.len(),
{
    let whole = s + tail;
    if tail.len() > 0 {
        assert(is_space(tail[tail.len() - 1]));
        assert(whole.drop_last() =~= s + tail.drop_last());
        lemma_trim_end(s, tail.drop_last());
    } else {
        assert(whole =~= s);
    }
}

/// Trimming takes off the space at the two ends and nothing else: whatever space is
/// put round a text that neither begins nor ends with any, the text comes back whole.
pub proof fn law_trim_takes_off_space_alone(lead: Seq<char>, s: Seq<char>, tail: Seq<char>)
    requires
        forall|i: int| 0 <= i < lead.len() ==> is_space(#[trigger] lead[i]),
        forall|i: int| 0 <= i < tail.len() ==> is_space(#[trigger] tail[i]),
        s.len() > 0 ==> !is_space(s[0]) && !is_space(s[s.len() - 1]),
    ensures
        trimmed(lead + s + tail) == s,
        trimmed_end(s + tail) == s,
{
    assert(all_space(lead) && all_space(tail));
    if s.len() > 0 {
        let front = lead + s;
        assert(front.last() == s.last());
        lemma_trim_end(front, tail);
        lemma_trim_start(lead, s);
    } else {
        let whole = lead + s + tail;
        assert(whole =~= Seq::<char>::empty() + (lead + tail));
        assert(all_space(lead + tail));
        lemma_trim_end(Seq::empty(), lead + tail);
    }
    lemma_trim_end(s, tail);
}

/// Every text is what trimming leaves of it with space round that, and what is left
/// neither begins nor ends with space.
pub proof fn law_trim_leaves_no_space(s: Seq<char>)
    ensures
        trimmed(s).len() > 0 ==> !is_space(trimmed(s)[0]) && !is_space(
            trimmed(s)[trimmed(s).len() - 1],
        ),
        exists|lead: Seq<char>, tail: Seq<char>|
            all_space(lead) && all_space(tail) && s == #[trigger] (lead + trimmed(s) + tail),
{
    let tail = lemma_end_split(s);
    let e = trimmed_end(s);
    let lead = lemma_start_split(e);
    assert(s =~= lead + trimmed(s) + tail);
    if trimmed(s).len() > 0 {
        assert(trimmed(s).last() == e.last());
    }
}

proof fn lemma_end_split(s: Seq<char>) -> (tail: Seq<char>)
    ensures
        all_space(tail),
        s == trimmed_end(s) + tail,
        trimmed_end(s).len() > 0 ==> !is_space(trimmed_end(s).last()),
    decreases s.len(),
{
    if s.len() > 0 && is_space(s.last()) {
        let t = lemma_end_split(s.drop_last());
        assert(s =~= s.drop_last().push(s.last()));
        assert(s =~= trimmed_end(s) + t.push(s.last()));
        t.push(s.last())
    } else {
        assert(s =~= s + Seq::<char>::empty());
        Seq::empty()
    }
}

proof fn lemma_start_split(s: Seq<char>) -> (lead: Seq<char>)
    ensures
        all_space(lead),
        s == lead + trimmed_start(s),
        trimmed_start(s).len() > 0 ==> !is_space(trimmed_start(s).first()),
    decreases s.len(),
{
    if s.len() > 0 && is_space(s.first()) {
        let t = lemma_start_split(s.drop_first());
        let lead = seq![s.first()] + t;
        assert(s =~= seq![s.first()] + s.drop_first());
        assert(s =~= lead + trimmed_start(s));
        lead
    } else {
        assert(s =~= Seq::<char>::empty() + s);
        Seq::empty()
    }
}

/// A text mentions another exactly if it is that other with something, or nothing,
/// before and after it.
pub proof fn law_what_is_mentioned(s: Seq<char>, key: Seq<char>)
    ensures
        mentions(s, key) <==> exists|before: Seq<char>, after: Seq<char>|
            s == #[trigger] (before + key + after),
        begins_with(s, key) <==> exists|after: Seq<char>| s == #[trigger] (key + after),
        finishes_with(s, key) <==> exists|before: Seq<char>| s == #[trigger] (before + key),
{
    if mentions(s, key) {
        let i = choose|i: int| occurs_at(s, key, i);
        assert(s =~= s.take(i) + key + s.skip(i + key.len()));
    }
    if exists|before: Seq<char>, after: Seq<char>| s == #[trigger] (before + key + after) {
        let (before, after) = choose|before: Seq<char>, after: Seq<char>|
            s == #[trigger] (before + key + after);
        lemma_mentioned_between(before, key, after);
    }
    if begins_with(s, key) {
        assert(s =~= key + s.skip(key.len() as int));
    }
    if exists|after: Seq<char>| s == #[trigger] (key + after) {
        let after = choose|after: Seq<char>| s == #[trigger] (key + after);
        assert(s.subrange(0, key.len() as int) =~= key);
    }
    if finishes_with(s, key) {
        assert(s =~= s.take(s.len() - key.len()) + key);
    }
    if exists|before: Seq<char>| s == #[trigger] (before + key) {
        let before = choose|before: Seq<char>| s == #[trigger] (before + key);
        assert(s.subrange(s.len() - key.len(), s.len() as int) =~= key);
    }
}

/// What stands between two texts is mentioned by the whole.
pub proof fn lemma_mentioned_between(before: Seq<char>, key: Seq<char>, after: Seq<char>)
    ensures
        mentions(before + key + after, key),
{
    let s = before + key + after;
    assert(s.subrange(before.len() as int, (before.len() + key.len()) as int) =~= key);
    assert(occurs_at(s, key, before.len() as int));
}

/// A text is split at the first separator, into all that stands before it and all that
/// stands after it; one without a separator is not split.
pub proof fn law_split_at_the_first(a: Seq<char>, c: char, b: Seq<char>)
    requires
        !a.contains(c),
    ensures
        split_first(a + seq![c] + b, c) == Some((a, b)),
        split_first(a, c) is None,
{
    let s = a + seq![c] + b;
    assert forall|j: int| 0 <= j < a.len() implies s[j] != c && a[j] != c by {
        assert(a.contains(a[j]));
    }
    lemma_find_char(s, c, a.len() as int);
    lemma_find_char(a, c, a.len() as int);
    assert(s.take(a.len() as int) =~= a);
    assert(s.skip(a.len() as int + 1) =~= b);
}

/// The lines of a text: nothing has none; a text without a newline is one line; a
/// newline ends a line, and a carriage return right before it is part of the ending.
/// What follows the ending is split in the same way.
pub proof fn law_lines(line: Seq<char>, rest: Seq<char>)
    requires
        !line.contains('\n'),
    ensures
        lines_of(Seq::empty()) == Seq::<Seq<char>>::empty(),
        line.len() > 0 ==> lines_of(line) == seq![line],
        line.len() == 0 || line[line.len() - 1] != '\r' ==> lines_of(line + seq!['\n'] + rest)
            == seq![line] + lines_of(rest),
        lines_of(line + seq!['\r', '\n'] + rest) == seq![line] + lines_of(rest),
{
    law_split_at_the_first(line, '\n', rest);
    let s = line + seq!['\n'] + rest;
    lemma_lines_step(line, rest);
    let cr = line.push('\r');
    assert forall|j: int| 0 <= j < cr.len() implies cr[j] != '\n' by {
        if j < line.len() {
            assert(line.contains(line[j]));
        }
    }
    assert(!cr.contains('\n'));
    lemma_lines_step(cr, rest);
    assert(line + seq!['\r', '\n'] + rest =~= cr + seq!['\n'] + rest);
    assert(cr.drop_last() =~= line);
    if line.len() > 0 {
        assert forall|j: int| 0 <= j < line.len() implies line[j] != '\n' by {
            assert(line.contains(line[j]));
        }
        lemma_find_char(line, '\n', line.len() as int);
    }
}

proof fn lemma_lines_step(line: Seq<char>, rest: Seq<char>)
    requires
        !line.contains('\n'),
    ensures
        lines_of(line + seq!['\n'] + rest) == seq![without_cr(line)] + lines_of(rest),
{
    let s = line + seq!['\n'] + rest;
    assert forall|j: int| 0 <= j < line.len() implies s[j] != '\n' by {
        assert(line.contains(line[j]));
    }
    lemma_find_char(s, '\n', line.len() as int);
    assert(s.take(line.len() as int) =~= line);
    assert(s.skip(line.len() as int + 1) =~= rest);
}

/// After a newline a new line begins: a line that is put there comes after all others.
pub proof fn law_lines_of_an_appended_line(listing: Seq<char>, line: Seq<char>)
    requires
        listing.len() == 0 || listing[listing.len() - 1] == '\n',
        line.len() > 0,
        !line.contains('\n'),
    ensures
        lines_of(listing + line) == lines_of(listing).push(line),
        line[line.len() - 1] != '\r' ==> lines_of(listing + line + seq!['\n']) == lines_of(
            listing,
        ).push(line),
    decreases listing.len(),
{
    if listing.len() == 0 {
        assert(listing + line =~= line);
        assert(listing + line + seq!['\n'] =~= line + seq!['\n'] + Seq::empty());
        law_lines(line, Seq::empty());
        assert(lines_of(listing + line) =~= lines_of(listing).push(line));
        assert(seq![line] + lines_of(Seq::empty()) =~= lines_of(listing).push(line));
    } else {
        let i = find_char(listing, '\n');
        lemma_found(listing, '\n');
        let (first, rest) = (listing.take(i), listing.skip(i + 1));
        assert(listing =~= first + seq!['\n'] + rest);
        assert(!first.contains('\n'));
        assert(rest.len() > 0 ==> rest[rest.len() - 1] == listing[listing.len() - 1]);
        law_lines_of_an_appended_line(rest, line);
        lemma_lines_step(first, rest);
        lemma_lines_step(first, rest + line);
        lemma_lines_step(first, rest + line + seq!['\n']);
        assert(listing + line =~= first + seq!['\n'] + (rest + line));
        assert(listing + line + seq!['\n'] =~= first + seq!['\n'] + (rest + line + seq!['\n']));
        assert(lines_of(listing + line) =~= lines_of(listing).push(line));
        if line[line.len() - 1] != '\r' {
            assert(lines_of(listing + line + seq!['\n']) =~= lines_of(listing).push(line));
        }
    }
}

proof fn lemma_found(s: Seq<char>, c: char)
    requires
        s.contains(c),
    ensures
        0 <= find_char(s, c) < s.len(),
        s[find_char(s, c)] == c,
        !s.take(find_char(s, c)).contains(c),
    decreases s.len(),
{
    if s[0] != c {
        let t = s.drop_first();
        let k = choose|k: int| 0 <= k < s.len() && s[k] == c;
        assert(t[k - 1] == c);
        lemma_found(t, c);
        let i = find_char(t, c);
        assert(s.take(i + 1) =~= seq![s[0]] + t.take(i));
        assert forall|j: int| 0 <= j < i + 1 implies (#[trigger] s.take(i + 1)[j]) != c by {
            if j > 0 {
                assert(t.take(i).contains(t.take(i)[j - 1]));
            }
        }
    }
}

/// The digits stand for the numbers up to fifteen, each for its own.
pub proof fn law_digits(d: int)
    ensures
        0 <= d < 10 ==> digit(d) as int == '0' as int + d,
        10 <= d < 16 ==> digit(d) as int == 'a' as int + (d - 10),
{
}

/// What digits stand for: nothing is zero, and each further digit makes the number ten
/// times as large and adds itself.
pub proof fn law_value_of_digits(s: Seq<char>, c: char)
    requires
        '0' <= c <= '9',
    ensures
        value_of(Seq::empty()) == 0,
        value_of(s.push(c)) == 10 * value_of(s) + (c as int - '0' as int),
        is_digit(c),
{
    assert(s.push(c).drop_last() =~= s);
}

/// A number written out in decimal reads back as that number. It is written without
/// leading zeros, in digits alone.
pub proof fn law_decimal_reads_back(n: nat)
    ensures
        value_of(decimal(n)) == n,
        decimal(n).len() >= 1,
        forall|i: int| 0 <= i < decimal(n).len() ==> '0' <= #[trigger] decimal(n)[i] <= '9',
        n > 0 ==> decimal(n)[0] != '0',
        n <= u32::MAX ==> number_in(decimal(n)) == Some(n as u32),
    decreases n,
{
    let last = digit((n % 10) as int);
    law_digits((n % 10) as int);
    if n >= 10 {
        let front = decimal(n / 10);
        law_decimal_reads_back(n / 10);
        law_value_of_digits(front, last);
        assert(decimal(n) == front.push(last));
        assert(n == 10 * (n / 10) + n % 10);
        assert(decimal(n)[0] == front[0]);
    } else {
        law_value_of_digits(Seq::empty(), last);
        assert(decimal(n) =~= Seq::<char>::empty().push(last));
    }
    assert forall|i: int| 0 <= i < decimal(n).len() implies is_digit(#[trigger] decimal(n)[i]) by {
        assert('0' <= decimal(n)[i] <= '9');
    }
    assert(all_digits(decimal(n)));
    assert(is_digit(decimal(n)[0]));
}

/// A text is read as a number exactly if it is one or more digits, with or without a
/// plus sign before them, and the number is not too large.
pub proof fn law_when_a_number_is_read(s: Seq<char>)
    ensures
        s.len() == 0 ==> number_in(s) is None,
        s.len() > 0 && s[0] == '+' ==> number_in(s) == if s.len() > 1 && s[1] == '+' {
            None
        } else {
            number_in(s.skip(1))
        },
        s.len() > 0 && s[0] != '+' && (exists|i: int|
            0 <= i < s.len() && !('0' <= #[trigger] s[i] <= '9')) ==> number_in(s) is None,
        s.len() > 0 && (forall|i: int| 0 <= i < s.len() ==> '0' <= #[trigger] s[i] <= '9')
            ==> number_in(s) == if value_of(s) <= u32::MAX {
            Some(value_of(s) as u32)
        } else {
            None
        },
{
    if s.len() > 0 && s[0] == '+' && s.len() > 1 {
        let t = s.skip(1);
        assert(t[0] == s[1]);
        if s[1] == '+' {
            assert(!is_digit(t[0]));
        }
    }
    if s.len() > 0 && s[0] != '+' && (exists|i: int|
        0 <= i < s.len() && !('0' <= #[trigger] s[i] <= '9')) {
        let i = choose|i: int| 0 <= i < s.len() && !('0' <= #[trigger] s[i] <= '9');
        assert(!is_digit(s[i]));
    }
    if s.len() > 0 && (forall|i: int| 0 <= i < s.len() ==> '0' <= #[trigger] s[i] <= '9') {
        assert('0' <= s[0] <= '9');
        assert(all_digits(s));
    }
}

/// The value of hexadecimal digits.
pub open spec fn hex_value(s: Seq<char>) -> int
    decreases s.len(),
{
    if s.len() == 0 {
        0
    } else {
        hex_value(s.drop_last()) * 16 + if '0' <= s.last() <= '9' {
            s.last() as int - '0' as int
        } else {
            s.last() as int - 'a' as int + 10
        }
    }
}

/// Sixteen hexadecimal digits tell every 64-bit number: written out and read back it is
/// the same, so two numbers are written alike only if they are equal.
pub proof fn law_hex_reads_back(h: u64)
    ensures
        hex16(h).len() == 16,
        hex_value(hex16(h)) == h,
        forall|i: int|
            0 <= i < 16 ==> '0' <= #[trigger] hex16(h)[i] <= '9' || 'a' <= hex16(h)[i] <= 'f',
{
    let s = hex16(h);
    assert forall|i: int| 0 <= i < 16 implies '0' <= #[trigger] s[i] <= '9' || 'a' <= s[i]
        <= 'f' by {
        let k = (60 - 4 * i) as u64;
        assert((h >> k) & 15 <= 15) by (bit_vector);
    }
    lemma_hex_prefix(h, 16);
    assert(s.take(16) =~= s);
    assert(h >> 0 == h) by (bit_vector);
}

proof fn lemma_hex_prefix(h: u64, n: int)
    requires
        1 <= n <= 16,
    ensures
        hex_value(hex16(h).take(n)) == h >> ((64 - 4 * n) as u64),
    decreases n,
{
    let s = hex16(h);
    let k = (64 - 4 * n) as u64;
    let d = (h >> k) & 15;
    assert(d <= 15) by (bit_vector)
        requires
            d == (h >> k) & 15,
    ;
    law_digits(d as int);
    assert(s[n - 1] == digit(d as int));
    assert(s.take(n).last() == s[n - 1]);
    assert(s.take(n).drop_last() =~= s.take(n - 1));
    if n > 1 {
        lemma_hex_prefix(h, n - 1);
        let up = (k + 4) as u64;
        assert((64 - 4 * (n - 1)) as u64 == up);
        assert(h >> k == (h >> up) * 16 + ((h >> k) & 15)) by (bit_vector)
            requires
                k <= 56,
                up == k + 4,
        ;
    } else {
        assert(s.take(0) =~= Seq::<char>::empty());
        assert(hex_value(s.take(0)) == 0);
        assert(h >> k == (h >> k) & 15) by (bit_vector)
            requires
                k == 60,
        ;
    }
}

/// Joining puts the separator between each two parts, and neither before the first nor
/// after the last.
pub proof fn law_joined(parts: Seq<Seq<char>>, part: Seq<char>, sep: Seq<char>)
    ensures
        joined(Seq::empty(), sep, 0) == Seq::<char>::empty(),
        joined(seq![part], sep, 1) == part,
        parts.len() > 0 ==> joined(parts.push(part), sep, parts.len() + 1) == joined(
            parts,
            sep,
            parts.len(),
        ) + sep + part,
{
    if parts.len() > 0 {
        lemma_joined_prefix(parts, part, sep, parts.len());
    }
}

proof fn lemma_joined_prefix(parts: Seq<Seq<char>>, part: Seq<char>, sep: Seq<char>, n: nat)
    requires
        n <= parts.len(),
    ensures
        joined(parts.push(part), sep, n) == joined(parts, sep, n),
    decreases n,
{
    if n > 1 {
        lemma_joined_prefix(parts, part, sep, (n - 1) as nat);
    }
}

/// A list is rendered in brackets, each text as it is quoted, with a comma and a blank
/// between each two.
pub proof fn law_debug_list(parts: Seq<Seq<char>>, part: Seq<char>)
    ensures
        debug_list(Seq::empty()) == seq!['[', ']'],
        debug_list(seq![part]) == seq!['['] + debug_text(part) + seq![']'],
        parts.len() > 0 ==> debug_list(parts.push(part)) == debug_list(parts).drop_last()
            + seq![',', ' '] + debug_text(part) + seq![']'],
{
    reveal_strlit(", ");
    let f = |s: Seq<char>| debug_text(s);
    assert(Seq::<Seq<char>>::empty().map_values(f) =~= Seq::empty());
    assert(debug_list(Seq::empty()) =~= seq!['[', ']']);
    assert(seq![part].map_values(f) =~= seq![debug_text(part)]);
    assert(parts.push(part).map_values(f) =~= parts.map_values(f).push(debug_text(part)));
    law_joined(parts.map_values(f), debug_text(part), ", "@);
    if parts.len() > 0 {
        assert(", "@ =~= seq![',', ' ']);
        assert(debug_list(parts.push(part)) =~= debug_list(parts).drop_last() + seq![',', ' ']
            + debug_text(part) + seq![']']);
    }
}

/// A name below a directory is the directory, one slash and the name; there is no
/// second slash where the directory ends with one, and none where it is empty.
pub proof fn law_path_below(dir: Seq<char>, name: Seq<char>)
    ensures
        dir.len() == 0 ==> path_below(dir, name) == name,
        dir.len() > 0 && dir[dir.len() - 1] == '/' ==> path_below(dir, name) == dir + name,
        dir.len() > 0 && dir[dir.len() - 1] != '/' ==> path_below(dir, name) == dir + seq!['/']
            + name,
{
}

/// The last hexadecimal digit is the rest by sixteen, and the others are those of the
/// number without it, one place further on.
pub proof fn law_hex_digits(h: u64, i: int)
    requires
        0 < i <= 15,
    ensures
        hex16(h)[15] == digit((h % 16) as int),
        hex16(h)[i - 1] == hex16((h / 16) as u64)[i],
{
    let g = (h / 16) as u64;
    assert((h >> 0u64) & 15 == h % 16) by (bit_vector);
    assert((60 - 4 * 15) as u64 == 0u64);
    let k = (60 - 4 * i) as u64;
    let up = (60 - 4 * (i - 1)) as u64;
    assert((h >> up) & 15 == ((h / 16) >> k) & 15) by (bit_vector)
        requires
            k <= 56,
            up == k + 4,
    ;
}

/// Lists of strings are spoken of item by item: as many texts as strings, each the text
/// of its string.
pub proof fn law_texts_are_item_by_item(v: Seq<String>, w: Seq<&str>, u: Seq<&[char]>, i: int)
    ensures
        views(u).len() == u.len(),
        0 <= i < u.len() ==> views(u)[i] == u[i]@,
        texts(v).len() == v.len(),
        0 <= i < v.len() ==> texts(v)[i] == v[i]@,
        slices(w).len() == w.len(),
        0 <= i < w.len() ==> slices(w)[i] == w[i]@,
{
}

/// Small letters: the capital letters of ASCII become the small ones, thirty-two
/// further on, and every other character is kept.
pub proof fn law_small_letters(s: Seq<char>, i: int)
    requires
        0 <= i < s.len(),
    ensures
        small_letters(s).len() == s.len(),
        'A' <= s[i] <= 'Z' ==> small_letters(s)[i] as int == s[i] as int + 32,
        !('A' <= s[i] <= 'Z') ==> small_letters(s)[i] == s[i],
{
}

} // verus!
