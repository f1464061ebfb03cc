//! Text: what trimming, searching, splitting and digit strings mean on sequences of characters,
//! and the functions that carry them out.

use vstd::prelude::*;
use vstd::utf8::{decode_utf8, encode_utf8, is_ascii_chars, valid_utf8};

verus! {

/// `str::eq` of the standard library: two strings are equal when they hold the same characters.
pub assume_specification[ <str as PartialEq>::eq ](a: &str, b: &str) -> (r: bool)
    ensures
        r == (a@ == b@),
;

/// `String::push` of the standard library: appends one character.
pub assume_specification[ String::push ](s: &mut String, c: char)
    ensures
        final(s)@ == old(s)@.push(c),
;

/// The number of bytes that `s` takes in UTF-8, which is what `str::len` counts.
pub open spec fn byte_len(s: Seq<char>) -> nat {
    encode_utf8(s).len()
}

/// The characters of each string.
pub open spec fn texts(v: Seq<String>) -> Seq<Seq<char>> {
    v.map_values(|s: String| s@)
}

/// The characters of an optional string.
pub open spec fn option_view(s: Option<String>) -> Option<Seq<char>> {
    match s {
        Some(t) => Some(t@),
        None => None,
    }
}

/// Unicode's `White_Space` property.
pub open spec fn is_white_space(c: char) -> bool {
    let n = c as u32;
    ||| 0x9 <= n <= 0xd
    ||| n == 0x20
    ||| n == 0x85
    ||| n == 0xa0
    ||| n == 0x1680
    ||| 0x2000 <= n <= 0x200a
    ||| n == 0x2028
    ||| n == 0x2029
    ||| n == 0x202f
    ||| n == 0x205f
    ||| n == 0x3000
}

/// `s` without its leading white space.
pub open spec fn trim_start(s: Seq<char>) -> Seq<char>
    decreases s.len(),
{
    if s.len() > 0 && is_white_space(s[0]) {
        trim_start(s.skip(1))
    } else {
        s
    }
}

/// `s` without its trailing white space.
pub open spec fn trim_end(s: Seq<char>) -> Seq<char>
    decreases s.len(),
{
    if s.len() > 0 && is_white_space(s.last()) {
        trim_end(s.drop_last())
    } else {
        s
    }
}

/// `s` without white space at either end.
pub open spec fn trim(s: Seq<char>) -> Seq<char> {
    trim_end(trim_start(s))
}

/// `s` begins with `prefix`.
pub open spec fn starts_with(s: Seq<char>, prefix: Seq<char>) -> bool {
    prefix.len() <= s.len() && s.take(prefix.len() as int) == prefix
}

/// `s` ends with `suffix`.
pub open spec fn ends_with(s: Seq<char>, suffix: Seq<char>) -> bool {
    suffix.len() <= s.len() && s.skip(s.len() - suffix.len()) == suffix
}

/// `part` stands in `s` at offset `at`.
pub open spec fn occurs_at(s: Seq<char>, part: Seq<char>, at: int) -> bool {
    0 <= at <= s.len() - part.len() && s.subrange(at, at + part.len()) == part
}

/// `part` stands somewhere in `s`.
pub open spec fn contains_text(s: Seq<char>, part: Seq<char>) -> bool {
    exists|at: int| occurs_at(s, part, at)
}

/// `s` without `suffix` at its end, or `s` itself where it does not end so.
pub open spec fn without_suffix(s: Seq<char>, suffix: Seq<char>) -> Seq<char> {
    if ends_with(s, suffix) {
        s.take(s.len() - suffix.len())
    } else {
        s
    }
}

/// The offset of the first `c` in `s`, or the length of `s` where there is none.
pub open spec fn first_at(s: Seq<char>, c: char) -> int
    decreases s.len(),
{
    if s.len() == 0 || s[0] == c {
        0
    } else {
        1 + first_at(s.skip(1), c)
    }
}

/// What follows the last `c` in `s`: all of `s` where there is none.
pub open spec fn after_last(s: Seq<char>, c: char) -> Seq<char>
    decreases s.len(),
{
    if s.len() == 0 || s.last() == c {
        Seq::empty()
    } else {
        after_last(s.drop_last(), c).push(s.last())
    }
}

/// The lower-case form of an ASCII capital; every other character as it is.
pub open spec fn ascii_lower(c: char) -> char {
    if 'A' <= c <= 'Z' {
        (c as u32 + 32) as char
    } else {
        c
    }
}

/// The capital of an ASCII lower-case letter; every other character as it is.
pub open spec fn ascii_upper(c: char) -> char {
    if 'a' <= c <= 'z' {
        (c as u32 - 32) as char
    } else {
        c
    }
}

/// `s` with its ASCII capitals in lower case.
pub open spec fn lowered(s: Seq<char>) -> Seq<char> {
    s.map_values(|c: char| ascii_lower(c))
}

/// `s` with its ASCII lower-case letters as capitals.
pub open spec fn uppered(s: Seq<char>) -> Seq<char> {
    s.map_values(|c: char| ascii_upper(c))
}

/// What `str::to_uppercase` makes of a text that is not all ASCII.
pub uninterp spec fn unicode_uppercase(s: Seq<char>) -> Seq<char>;

/// `s` in capitals, as `str::to_uppercase` has it.
pub open spec fn uppercase(s: Seq<char>) -> Seq<char> {
    if is_ascii_chars(s) {
        uppered(s)
    } else {
        unicode_uppercase(s)
    }
}

/// `str::to_uppercase` of the standard library. On ASCII text it turns each lower-case letter into
/// its capital and leaves the rest; on other text the result is named, not described.
#[verifier::external_body]
pub(crate) fn to_uppercase(s: &str) -> (r: String)
    ensures
        is_ascii_chars(s@) ==> r@ == uppered(s@),
        !is_ascii_chars(s@) ==> r@ == unicode_uppercase(s@),
{
    s.to_uppercase()
}

/// How the standard library's `Debug` writes a text: in quotes, with escapes.
pub uninterp spec fn debug_text(s: Seq<char>) -> Seq<char>;

/// `str`'s `Debug` of the standard library. What it writes is named, not described.
#[verifier::external_body]
pub(crate) fn quoted(s: &str) -> (r: String)
    ensures
        r@ == debug_text(s@),
{
    format!("{s:?}")
}

/// What the error of `String::from_utf8` says of bytes that are not UTF-8.
pub uninterp spec fn utf8_refusal(bytes: Seq<u8>) -> Seq<char>;

/// `String::from_utf8` of the standard library: the text whose UTF-8 the bytes are, if they are any,
/// or else the text of the error, which is named, not described.
#[verifier::external_body]
pub(crate) fn from_utf8(bytes: Vec<u8>) -> (r: Result<String, String>)
    ensures
        match r {
            Ok(t) => valid_utf8(bytes@) && t@ == decode_utf8(bytes@),
            Err(cause) => !valid_utf8(bytes@) && cause@ == utf8_refusal(bytes@),
        },
{
    match String::from_utf8(bytes) {
        Ok(t) => Ok(t),
        Err(e) => Err(e.to_string()),
    }
}

/// What `String::from_utf8_lossy` makes of bytes that are not UTF-8.
pub uninterp spec fn repaired_utf8(bytes: Seq<u8>) -> Seq<char>;

/// The text of some bytes, with replacement characters where they are not UTF-8.
pub open spec fn lossy_text(bytes: Seq<u8>) -> Seq<char> {
    if valid_utf8(bytes) {
        decode_utf8(bytes)
    } else {
        repaired_utf8(bytes)
    }
}

/// `String::from_utf8_lossy` of the standard library: the text itself where the bytes are UTF-8; of
/// other bytes the result is named, not described.
#[verifier::external_body]
pub(crate) fn from_utf8_lossy(bytes: &[u8]) -> (r: String)
    ensures
        valid_utf8(bytes@) ==> r@ == decode_utf8(bytes@),
        !valid_utf8(bytes@) ==> r@ == repaired_utf8(bytes@),
{
    String::from_utf8_lossy(bytes).into_owned()
}

/// The decimal digits of `n`.
pub open spec fn decimal(n: nat) -> Seq<char>
    decreases n,
{
    if n < 10 {
        seq![(48 + n) as char]
    } else {
        decimal(n / 10).push((48 + n % 10) as char)
    }
}

/// The lower-case hexadecimal digit with value `n`.
pub open spec fn hex_digit(n: int) -> char {
    if n < 10 {
        (48 + n) as char
    } else {
        (87 + n) as char
    }
}

/// Two lower-case hexadecimal digits for each byte, the high half first.
pub open spec fn hex_text(bytes: Seq<u8>) -> Seq<char> {
    Seq::new(
        2 * bytes.len(),
        |i: int| hex_digit(if i % 2 == 0 { bytes[i / 2] as int / 16 } else { bytes[i / 2] as int % 16 }),
    )
}

/// The hexadecimal digits of `n`, at least `width` of them.
pub open spec fn hex_number(n: nat, width: nat) -> Seq<char>
    decreases n, width,
{
    if n == 0 && width == 0 {
        Seq::empty()
    } else {
        hex_number(n / 16, if width == 0 { 0 } else { (width - 1) as nat }).push(hex_digit(n as int % 16))
    }
}

/// The lines of `s`, without their line feeds and without a carriage return that stands directly
/// before one. What follows the last line feed is a line unless it is empty.
pub open spec fn lines(s: Seq<char>) -> Seq<Seq<char>>
    decreases s.len(),
{
    let end = first_at(s, '\n');
    if s.len() == 0 {
        Seq::empty()
    } else if 0 <= end < s.len() {
        seq![without_suffix(s.take(end), seq!['\r'])] + lines(s.skip(end + 1))
    } else {
        seq![s]
    }
}

/// The number of characters before the first white space in `s`.
pub open spec fn word_len(s: Seq<char>) -> nat
    decreases s.len(),
{
    if s.len() == 0 || is_white_space(s[0]) {
        0
    } else {
        1 + word_len(s.skip(1))
    }
}

/// The first run of characters in `s` that are not white space.
pub open spec fn first_word(s: Seq<char>) -> Option<Seq<char>> {
    let rest = trim_start(s);
    if rest.len() == 0 {
        None
    } else {
        Some(rest.take(word_len(rest) as int))
    }
}

pub(crate) fn chars(s: &str) -> (r: Vec<char>)
    ensures
        r@ == s@,
{
    let mut r: Vec<char> = Vec::new();
    for c in it: s.chars()
        invariant
            r@ == it.seq().take(it.index() as int),
            it.seq() == s@,
    {
        r.push(c);
    }
    r
}

pub(crate) fn byte_count(s: &str) -> (r: usize)
    ensures
        r == byte_len(s@),
{
    s.as_bytes().len()
}

pub(crate) fn is_white(c: char) -> (r: bool)
    ensures
        r == is_white_space(c),
{
    let n: u32 = c as u32;
    (0x9 <= n && n <= 0xd) || n == 0x20 || n == 0x85 || n == 0xa0 || n == 0x1680
        || (0x2000 <= n && n <= 0x200a) || n == 0x2028 || n == 0x2029 || n == 0x202f || n == 0x205f
        || n == 0x3000
}

proof fn lemma_trim_start_at(s: Seq<char>, k: int)
    requires
        0 <= k <= s.len(),
        forall|i: int| 0 <= i < k ==> is_white_space(#[trigger] s[i]),
        k < s.len() ==> !is_white_space(s[k]),
    ensures
        trim_start(s) == s.skip(k),
    decreases k,
{
    if k > 0 {
        let t = s.skip(1);
        assert forall|i: int| 0 <= i < k - 1 implies is_white_space(#[trigger] t[i]) by {
            assert(t[i] == s[i + 1]);
        }
        lemma_trim_start_at(t, k - 1);
        assert(t.skip(k - 1) =~= s.skip(k));
    } else {
        assert(s.skip(0) =~= s);
    }
}

proof fn lemma_trim_end_at(s: Seq<char>, k: int)
    requires
        0 <= k <= s.len(),
        forall|i: int| k <= i < s.len() ==> is_white_space(#[trigger] s[i]),
        k > 0 ==> !is_white_space(s[k - 1]),
    ensures
        trim_end(s) == s.take(k),
    decreases s.len(),
{
    if k < s.len() {
        let t = s.drop_last();
        lemma_trim_end_at(t, k);
        assert(t.take(k) =~= s.take(k));
    } else {
        assert(s.take(k) =~= s);
    }
}

pub(crate) fn trimmed_start<'a>(s: &'a str) -> (r: &'a str)
    ensures
        r@ == trim_start(s@),
{
    let v = chars(s);
    let mut k: usize = 0;
    while k < v.len() && is_white(v[k])
        invariant
            k <= v.len(),
            v@ == s@,
            forall|i: int| 0 <= i < k ==> is_white_space(#[trigger] s@[i]),
        decreases v.len() - k,
    {
        k = k + 1;
    }
    proof {
        lemma_trim_start_at(s@, k as int);
    }
    s.substring_char(k, v.len())
}

pub(crate) fn trimmed_end<'a>(s: &'a str) -> (r: &'a str)
    ensures
        r@ == trim_end(s@),
{
    let v = chars(s);
    let mut k: usize = v.len();
    while k > 0 && is_white(v[k - 1])
        invariant
            k <= v.len(),
            v@ == s@,
            forall|i: int| k <= i < v.len() ==> is_white_space(#[trigger] s@[i]),
        decreases k,
    {
        k = k - 1;
    }
    proof {
        lemma_trim_end_at(s@, k as int);
    }
    s.substring_char(0, k)
}

pub(crate) fn trimmed<'a>(s: &'a str) -> (r: &'a str)
    ensures
        r@ == trim(s@),
{
    trimmed_end(trimmed_start(s))
}


pub(crate) fn has_at(v: &Vec<char>, part: &Vec<char>, at: usize) -> (r: bool)
    requires
        at + part.len() <= v.len(),
    ensures
        r == occurs_at(v@, part@, at as int),
{
    let mut i: usize = 0;
    while i < part.len()
        invariant
            i <= part.len(),
            at + part.len() <= v.len(),
            forall|j: int| 0 <= j < i ==> v@[at + j] == #[trigger] part@[j],
        decreases part.len() - i,
    {
        if v[at + i] != part[i] {
            assert(v@.subrange(at as int, at + part.len())[i as int] != part@[i as int]);
            return false;
        }
        i = i + 1;
    }
    assert(v@.subrange(at as int, at + part.len()) =~= part@);
    true
}

pub(crate) fn has_prefix(s: &str, prefix: &str) -> (r: bool)
    ensures
        r == starts_with(s@, prefix@),
{
    let v = chars(s);
    let p = chars(prefix);
    if p.len() > v.len() {
        return false;
    }
    assert(s@.subrange(0, p@.len() as int) =~= s@.take(p@.len() as int));
    has_at(&v, &p, 0)
}

pub(crate) fn has_suffix(s: &str, suffix: &str) -> (r: bool)
    ensures
        r == ends_with(s@, suffix@),
{
    let v = chars(s);
    let p = chars(suffix);
    if p.len() > v.len() {
        return false;
    }
    assert(s@.subrange(s@.len() - p@.len(), s@.len() as int) =~= s@.skip(s@.len() - p@.len()));
    has_at(&v, &p, v.len() - p.len())
}

pub(crate) fn has_text(s: &str, part: &str) -> (r: bool)
    ensures
        r == contains_text(s@, part@),
{
    let v = chars(s);
    let p = chars(part);
    if p.len() > v.len() {
        return false;
    }
    let mut at: usize = 0;
    while at <= v.len() - p.len()
        invariant
            p.len() <= v.len(),
            at <= v.len() - p.len() + 1,
            v@ == s@,
            p@ == part@,
            forall|j: int| 0 <= j < at ==> !occurs_at(s@, part@, j),
        decreases v.len() - at,
    {
        if has_at(&v, &p, at) {
            return true;
        }
        if at == v.len() - p.len() {
            return false;
        }
        at = at + 1;
    }
    false
}

/// What follows `prefix` in `s`, where `s` begins with it.
pub(crate) fn cut_prefix<'a>(s: &'a str, prefix: &str) -> (r: Option<&'a str>)
    ensures
        r is Some <==> starts_with(s@, prefix@),
        r matches Some(rest) ==> rest@ == s@.skip(prefix@.len() as int),
{
    if has_prefix(s, prefix) {
        Some(s.substring_char(prefix.unicode_len(), s.unicode_len()))
    } else {
        None
    }
}

pub(crate) fn cut_suffix<'a>(s: &'a str, suffix: &str) -> (r: &'a str)
    ensures
        r@ == without_suffix(s@, suffix@),
{
    if has_suffix(s, suffix) {
        s.substring_char(0, s.unicode_len() - suffix.unicode_len())
    } else {
        s
    }
}

/// `first_at` is the offset before which there is no `c` and at which there is one.
pub proof fn lemma_first_at(s: Seq<char>, c: char, k: int)
    requires
        0 <= k <= s.len(),
        forall|i: int| 0 <= i < k ==> #[trigger] s[i] != c,
        k < s.len() ==> s[k] == c,
    ensures
        first_at(s, c) == k,
    decreases k,
{
    if k > 0 {
        let t = s.skip(1);
        assert forall|i: int| 0 <= i < k - 1 implies #[trigger] t[i] != c by {
            assert(t[i] == s[i + 1]);
        }
        lemma_first_at(t, c, k - 1);
        assert(s[0] != c);
    }
}

pub proof fn lemma_first_at_bounds(s: Seq<char>, c: char)
    ensures
        0 <= first_at(s, c) <= s.len(),
        forall|i: int| 0 <= i < first_at(s, c) ==> #[trigger] s[i] != c,
        first_at(s, c) < s.len() ==> s[first_at(s, c)] == c,
    decreases s.len(),
{
    if s.len() > 0 && s[0] != c {
        let t = s.skip(1);
        lemma_first_at_bounds(t, c);
        assert forall|i: int| 0 <= i < first_at(s, c) implies #[trigger] s[i] != c by {
            if i > 0 {
                assert(t[i - 1] == s[i]);
            }
        }
    }
}

pub(crate) fn find_char(s: &str, c: char) -> (r: usize)
    ensures
        r == first_at(s@, c),
        r <= s@.len(),
{
    let v = chars(s);
    let mut k: usize = 0;
    while k < v.len() && v[k] != c
        invariant
            k <= v.len(),
            v@ == s@,
            forall|i: int| 0 <= i < k ==> #[trigger] s@[i] != c,
        decreases v.len() - k,
    {
        k = k + 1;
    }
    proof {
        lemma_first_at(s@, c, k as int);
    }
    k
}

/// `after_last` is the end of `s` from the first offset beyond which there is no `c`.
pub proof fn lemma_after_last(s: Seq<char>, c: char, k: int)
    requires
        0 <= k <= s.len(),
        forall|i: int| k <= i < s.len() ==> #[trigger] s[i] != c,
        k > 0 ==> s[k - 1] == c,
    ensures
        after_last(s, c) == s.skip(k),
    decreases s.len(),
{
    if k < s.len() {
        lemma_after_last(s.drop_last(), c, k);
        assert(s.drop_last().skip(k).push(s.last()) =~= s.skip(k));
    } else {
        assert(s.skip(k) =~= Seq::<char>::empty());
    }
}

pub(crate) fn leaf<'a>(s: &'a str, c: char) -> (r: &'a str)
    ensures
        r@ == after_last(s@, c),
{
    let v = chars(s);
    let mut k: usize = v.len();
    while k > 0 && v[k - 1] != c
        invariant
            k <= v.len(),
            v@ == s@,
            forall|i: int| k <= i < v.len() ==> #[trigger] s@[i] != c,
        decreases k,
    {
        k = k - 1;
    }
    proof {
        lemma_after_last(s@, c, k as int);
    }
    s.substring_char(k, v.len())
}

pub(crate) fn to_lower(s: &str) -> (r: String)
    ensures
        r@ == lowered(s@),
{
    let mut r = String::new();
    for c in it: s.chars()
        invariant
            r@ == lowered(it.seq().take(it.index() as int)),
            it.seq() == s@,
    {
        let d: char = if 'A' <= c && c <= 'Z' { ((c as u8) + 32) as char } else { c };
        r.push(d);
        assert(r@ =~= lowered(it.seq().take(it.index() + 1)));
    }
    r
}

pub(crate) fn decimal_text(n: u64) -> (r: String)
    ensures
        r@ == decimal(n as nat),
    decreases n,
{
    let d: char = ((n % 10) as u8 + 48) as char;
    let mut r = if n < 10 { String::new() } else { decimal_text(n / 10) };
    r.push(d);
    r
}

pub(crate) fn hex_char(n: u8) -> (r: char)
    requires
        n < 16,
    ensures
        r == hex_digit(n as int),
{
    if n < 10 { (n + 48) as char } else { (n + 87) as char }
}

pub(crate) fn hex_number_text(n: u64, width: u8) -> (r: String)
    ensures
        r@ == hex_number(n as nat, width as nat),
    decreases n, width,
{
    if n == 0 && width == 0 {
        return String::new();
    }
    let mut r = hex_number_text(n / 16, if width == 0 { 0 } else { width - 1 });
    r.push(hex_char((n % 16) as u8));
    r
}

pub(crate) proof fn lemma_lines_step(s: Seq<char>)
    requires
        s.len() > 0,
    ensures
        ({
            let end = first_at(s, '\n');
            &&& 0 <= end <= s.len()
            &&& end < s.len() ==> lines(s) == seq![without_suffix(s.take(end), seq!['\r'])] + lines(
                s.skip(end + 1),
            )
            &&& end == s.len() ==> lines(s) == seq![s]
        }),
{
    lemma_first_at_bounds(s, '\n');
}

/// The lines of a text that ends its last line, and of what follows it, are the lines of both.
pub proof fn lines_of_concat(a: Seq<char>, b: Seq<char>)
    requires
        a.len() > 0 ==> a.last() == '\n',
    ensures
        lines(a + b) == lines(a) + lines(b),
    decreases a.len(),
{
    if a.len() == 0 {
        assert(a + b =~= b);
        assert(lines(a) + lines(b) =~= lines(b));
    } else {
        let end = first_at(a, '\n');
        lemma_first_at_bounds(a, '\n');
        assert(a[a.len() - 1] == '\n');
        let tail = a.skip(end + 1);
        assert forall|i: int| 0 <= i < end implies #[trigger] (a + b)[i] != '\n' by {
            assert((a + b)[i] == a[i]);
        }
        lemma_first_at(a + b, '\n', end);
        assert((a + b).take(end) =~= a.take(end));
        assert((a + b).skip(end + 1) =~= tail + b);
        lines_of_concat(tail, b);
        lemma_lines_step(a);
        lemma_lines_step(a + b);
        let first = without_suffix(a.take(end), seq!['\r']);
        assert(lines(a) + lines(b) =~= seq![first] + (lines(tail) + lines(b)));
    }
}

/// The lines of a text.
pub(crate) fn split_lines(text: &str) -> (r: Vec<String>)
    ensures
        texts(r@) == lines(text@),
{
    let mut r: Vec<String> = Vec::new();
    let mut rest: &str = text;
    assert(texts(r@) + lines(text@) =~= lines(text@));
    while !rest.is_empty()
        invariant
            lines(text@) == texts(r@) + lines(rest@),
        decreases rest@.len(),
    {
        let end = find_char(rest, '\n');
        let n = rest.unicode_len();
        let ghost done = texts(r@);
        proof {
            lemma_lines_step(rest@);
        }
        if end < n {
            let line = cut_suffix(rest.substring_char(0, end), "\r");
            let ghost after = lines(rest@.skip(end + 1));
            proof {
                reveal_strlit("\r");
                assert("\r"@ =~= seq!['\r']);
                assert(rest@.subrange(0, end as int) =~= rest@.take(end as int));
                assert(rest@.subrange(end + 1, n as int) =~= rest@.skip(end + 1));
            }
            r.push(line.to_owned());
            rest = rest.substring_char(end + 1, n);
            assert(texts(r@) =~= done.push(line@));
            assert(done + (seq![line@] + after) =~= texts(r@) + after);
        } else {
            r.push(rest.to_owned());
            assert(texts(r@) =~= done.push(rest@));
            assert(done + seq![rest@] =~= texts(r@) + Seq::<Seq<char>>::empty());
            rest = rest.substring_char(n, n);
        }
    }
    assert(texts(r@) + Seq::<Seq<char>>::empty() =~= texts(r@));
    r
}

/// `first_word` of a line, where it has one.
pub(crate) fn first_word_of<'a>(s: &'a str) -> (r: Option<&'a str>)
    ensures
        match r {
            Some(w) => first_word(s@) == Some(w@),
            None => first_word(s@) is None,
        },
{
    let rest = trimmed_start(s);
    let v = chars(rest);
    if v.len() == 0 {
        return None;
    }
    let mut k: usize = 0;
    assert(rest@.skip(0) =~= rest@);
    while k < v.len() && !is_white(v[k])
        invariant
            k <= v.len(),
            v@ == rest@,
            word_len(rest@) == k + word_len(rest@.skip(k as int)),
        decreases v.len() - k,
    {
        assert(rest@.skip(k as int).skip(1) =~= rest@.skip(k + 1));
        k = k + 1;
    }
    Some(rest.substring_char(0, k))
}

/// The UTF-8 of two texts in a row is the UTF-8 of each in a row.
pub proof fn utf8_of_concat(a: Seq<char>, b: Seq<char>)
    ensures
        encode_utf8(a + b) == encode_utf8(a) + encode_utf8(b),
        byte_len(a + b) == byte_len(a) + byte_len(b),
    decreases a.len(),
{
    if a.len() == 0 {
        assert(a + b =~= b);
        assert(encode_utf8(a) + encode_utf8(b) =~= encode_utf8(b));
    } else {
        utf8_of_concat(a.drop_first(), b);
        assert((a + b).drop_first() =~= a.drop_first() + b);
        assert(encode_utf8(a + b) =~= encode_utf8(a) + encode_utf8(b));
    }
}

/// Nothing but white space.
pub open spec fn is_blank(s: Seq<char>) -> bool {
    forall|i: int| 0 <= i < s.len() ==> is_white_space(#[trigger] s[i])
}

/// Among the ASCII characters the white space is the space, the tab, the line feed, the vertical tab,
/// the form feed and the carriage return.
pub proof fn ascii_white_space(c: char)
    requires
        c <= '\u{7f}',
    ensures
        is_white_space(c) <==> c == ' ' || c == '\t' || c == '\n' || c == '\u{b}' || c == '\u{c}' || c == '\r',
{
}

/// Trimming takes off the white space around a text, all of it and nothing else.
pub proof fn trimming_takes_white_space_off(before: Seq<char>, t: Seq<char>, after: Seq<char>)
    requires
        is_blank(before),
        is_blank(after),
        t.len() > 0 ==> !is_white_space(t[0]) && !is_white_space(t.last()),
    ensures
        trim(before + t + after) == t,
        t.len() > 0 ==> trim_start(before + t + after) == t + after,
        t.len() > 0 ==> trim_end(before + t + after) == before + t,
{
    let s = before + t + after;
    if t.len() > 0 {
        let k = before.len() as int;
        assert forall|i: int| 0 <= i < k implies is_white_space(#[trigger] s[i]) by {
            assert(s[i] == before[i]);
        }
        assert(s[k] == t[0]);
        lemma_trim_start_at(s, k);
        assert(s.skip(k) =~= t + after);
        let n = t.len() as int;
        let u = t + after;
        assert forall|i: int| n <= i < u.len() implies is_white_space(#[trigger] u[i]) by {
            assert(u[i] == after[i - n]);
        }
        assert(u[n - 1] == t.last());
        lemma_trim_end_at(u, n);
        assert(u.take(n) =~= t);
        assert forall|i: int| k + n <= i < s.len() implies is_white_space(#[trigger] s[i]) by {
            assert(s[i] == after[i - k - n]);
        }
        assert(s[k + n - 1] == t.last());
        lemma_trim_end_at(s, k + n);
        assert(s.take(k + n) =~= before + t);
    } else {
        assert forall|i: int| 0 <= i < s.len() implies is_white_space(#[trigger] s[i]) by {
            if i < before.len() {
                assert(s[i] == before[i]);
            } else {
                assert(s[i] == after[i - before.len()]);
            }
        }
        lemma_trim_start_at(s, s.len() as int);
        assert(s.skip(s.len() as int) =~= t);
    }
}

/// What trimming leaves stands in the text with nothing but white space around it, and neither begins
/// nor ends with any.
pub proof fn trimming_leaves_the_rest(s: Seq<char>)
    ensures
        exists|before: Seq<char>, after: Seq<char>|
            #[trigger] is_blank(before) && #[trigger] is_blank(after) && s == before + trim(s) + after,
        trim(s).len() > 0 ==> !is_white_space(trim(s)[0]) && !is_white_space(trim(s).last()),
        trim(s).len() == 0 <==> is_blank(s),
{
    let k = lemma_blank_start(s);
    lemma_trim_start_at(s, k);
    let u = s.skip(k);
    let n = lemma_blank_end(u);
    lemma_trim_end_at(u, n);
    let (before, after) = (s.take(k), u.skip(n));
    assert forall|i: int| 0 <= i < before.len() implies is_white_space(#[trigger] before[i]) by {
        assert(before[i] == s[i]);
    }
    assert forall|i: int| 0 <= i < after.len() implies is_white_space(#[trigger] after[i]) by {
        assert(after[i] == u[n + i]);
    }
    assert(is_blank(before) && is_blank(after));
    assert(s =~= before + trim(s) + after);
    if n > 0 {
        assert(u[0] == s[k]);
        assert(trim(s)[0] == u[0]);
        assert(!is_white_space(s[k]));
    } else if u.len() > 0 {
        assert(is_white_space(u[0]));
        assert(u[0] == s[k]);
    } else {
        assert(is_blank(s));
    }
}

/// How many characters of white space begin a text.
proof fn lemma_blank_start(s: Seq<char>) -> (k: int)
    ensures
        0 <= k <= s.len(),
        forall|i: int| 0 <= i < k ==> is_white_space(#[trigger] s[i]),
        k < s.len() ==> !is_white_space(s[k]),
    decreases s.len(),
{
    if s.len() == 0 || !is_white_space(s[0]) {
        0
    } else {
        let t = s.skip(1);
        let k = lemma_blank_start(t);
        assert forall|i: int| 0 <= i < k + 1 implies is_white_space(#[trigger] s[i]) by {
            if i > 0 {
                assert(s[i] == t[i - 1]);
            }
        }
        k + 1
    }
}

/// Where the white space that ends a text begins.
proof fn lemma_blank_end(s: Seq<char>) -> (k: int)
    ensures
        0 <= k <= s.len(),
        forall|i: int| k <= i < s.len() ==> is_white_space(#[trigger] s[i]),
        k > 0 ==> !is_white_space(s[k - 1]),
    decreases s.len(),
{
    if s.len() == 0 || !is_white_space(s.last()) {
        s.len() as int
    } else {
        let t = s.drop_last();
        let k = lemma_blank_end(t);
        assert forall|i: int| k <= i < s.len() implies is_white_space(#[trigger] s[i]) by {
            if i < t.len() {
                assert(s[i] == t[i]);
            }
        }
        k
    }
}

/// The first word of a text is what stands between the white space before it and the next; a blank text
/// has none. What follows it plays no part.
pub proof fn the_first_word_stands_between_white_space(before: Seq<char>, word: Seq<char>, after: Seq<char>)
    requires
        is_blank(before),
        forall|i: int| 0 <= i < word.len() ==> !is_white_space(#[trigger] word[i]),
        word.len() > 0,
        after.len() > 0 ==> is_white_space(after[0]),
    ensures
        first_word(before + word + after) == Some(word),
        first_word(before) is None,
{
    let s = before + word + after;
    let k = before.len() as int;
    assert forall|i: int| 0 <= i < k implies is_white_space(#[trigger] s[i]) by {
        assert(s[i] == before[i]);
    }
    assert(s[k] == word[0]);
    lemma_trim_start_at(s, k);
    lemma_trim_start_at(before, k);
    assert(s.skip(k) =~= word + after);
    lemma_word_len(word, after);
    assert((word + after).take(word.len() as int) =~= word);
}

proof fn lemma_word_len(word: Seq<char>, after: Seq<char>)
    requires
        forall|i: int| 0 <= i < word.len() ==> !is_white_space(#[trigger] word[i]),
        after.len() > 0 ==> is_white_space(after[0]),
    ensures
        word_len(word + after) == word.len(),
    decreases word.len(),
{
    let s = word + after;
    if word.len() == 0 {
        if after.len() > 0 {
            assert(s[0] == after[0]);
        }
    } else {
        assert(s[0] == word[0]);
        let rest = word.skip(1);
        assert(s.skip(1) =~= rest + after);
        assert forall|i: int| 0 <= i < rest.len() implies !is_white_space(#[trigger] rest[i]) by {
            assert(rest[i] == word[i + 1]);
        }
        lemma_word_len(rest, after);
    }
}

/// A text without a line feed in it.
pub open spec fn within_a_line(s: Seq<char>) -> bool {
    forall|i: int| 0 <= i < s.len() ==> #[trigger] s[i] != '\n'
}

/// A line that ends, by a line feed alone or by a carriage return and a line feed, is the first of the
/// lines of a text that begins with it; what follows gives the other lines.
pub proof fn a_line_ends_at_its_line_feed(line: Seq<char>, rest: Seq<char>)
    requires
        within_a_line(line),
    ensures
        lines(line + seq!['\r', '\n'] + rest) == seq![line] + lines(rest),
        line.len() == 0 || line.last() != '\r' ==> lines(line + seq!['\n'] + rest) == seq![line] + lines(rest),
        line.len() > 0 ==> lines(line) == seq![line],
        lines(Seq::<char>::empty()) == Seq::<Seq<char>>::empty(),
{
    let n = line.len() as int;
    let crlf = line + seq!['\r', '\n'] + rest;
    assert forall|i: int| 0 <= i < n + 1 implies #[trigger] crlf[i] != '\n' by {
        if i < n {
            assert(crlf[i] == line[i]);
        }
    }
    lemma_first_at(crlf, '\n', n + 1);
    lemma_lines_step(crlf);
    assert(crlf.take(n + 1) =~= line.push('\r'));
    assert(line.push('\r').skip(n) =~= seq!['\r']);
    assert(line.push('\r').take(n) =~= line);
    assert(crlf.skip(n + 2) =~= rest);
    if n == 0 || line.last() != '\r' {
        let lf = line + seq!['\n'] + rest;
        assert forall|i: int| 0 <= i < n implies #[trigger] lf[i] != '\n' by {
            assert(lf[i] == line[i]);
        }
        lemma_first_at(lf, '\n', n);
        lemma_lines_step(lf);
        assert(lf.take(n) =~= line);
        assert(lf.skip(n + 1) =~= rest);
        if n > 0 {
            assert(line.skip(n - 1)[0] == line.last());
        }
    }
    if n > 0 {
        lemma_first_at(line, '\n', n);
        lemma_lines_step(line);
    }
}

/// The number that decimal digits write.
pub open spec fn decimal_value(digits: Seq<char>) -> int
    decreases digits.len(),
{
    if digits.len() == 0 {
        0
    } else {
        10 * decimal_value(digits.drop_last()) + (digits.last() as int - '0' as int)
    }
}

/// The decimal digits of a number are digits, write the number, and begin with a zero only for zero.
pub proof fn decimal_digits_write_the_number(n: nat)
    ensures
        decimal(n).len() > 0,
        decimal_value(decimal(n)) == n,
        forall|i: int| 0 <= i < decimal(n).len() ==> '0' <= #[trigger] decimal(n)[i] <= '9',
        n > 0 ==> decimal(n)[0] != '0',
    decreases n,
{
    let d = decimal(n);
    if n < 10 {
        assert(d.drop_last() =~= Seq::<char>::empty());
        assert(decimal_value(d.drop_last()) == 0);
        assert(d.last() as int == 48 + n);
    } else {
        decimal_digits_write_the_number(n / 10);
        assert(d.drop_last() =~= decimal(n / 10));
        assert(d.last() as int == 48 + n % 10);
        assert(d[0] == decimal(n / 10)[0]);
        assert forall|i: int| 0 <= i < d.len() implies '0' <= #[trigger] d[i] <= '9' by {
            if i < d.len() - 1 {
                assert(d[i] == decimal(n / 10)[i]);
            }
        }
    }
}

/// The value of a lower-case hexadecimal digit.
pub open spec fn hex_digit_value(c: char) -> int {
    if '0' <= c <= '9' {
        c as int - '0' as int
    } else {
        10 + c as int - 'a' as int
    }
}

/// The number that hexadecimal digits write.
pub open spec fn hex_value(digits: Seq<char>) -> int
    decreases digits.len(),
{
    if digits.len() == 0 {
        0
    } else {
        16 * hex_value(digits.drop_last()) + hex_digit_value(digits.last())
    }
}

/// The hexadecimal digits of a number are lower-case digits, at least so many as asked for, and write
/// the number.
pub proof fn hex_digits_write_the_number(n: nat, width: nat)
    ensures
        hex_number(n, width).len() >= width,
        hex_value(hex_number(n, width)) == n,
        forall|i: int|
            0 <= i < hex_number(n, width).len() ==> ('0' <= #[trigger] hex_number(n, width)[i] <= '9' || 'a'
                <= hex_number(n, width)[i] <= 'f'),
    decreases n, width,
{
    if n > 0 || width > 0 {
        let w: nat = if width == 0 { 0 } else { (width - 1) as nat };
        hex_digits_write_the_number(n / 16, w);
        let h = hex_number(n, width);
        let low = n as int % 16;
        assert(h.drop_last() =~= hex_number(n / 16, w));
        assert(hex_digit(low) as int == if low < 10 { 48 + low } else { 87 + low });
        assert(hex_digit_value(h.last()) == low);
        assert forall|i: int| 0 <= i < h.len() implies ('0' <= #[trigger] h[i] <= '9' || 'a' <= h[i] <= 'f') by {
            if i < h.len() - 1 {
                assert(h[i] == hex_number(n / 16, w)[i]);
            }
        }
    }
}

/// What follows the last separator of a text is what was written there.
pub proof fn the_leaf_follows_the_last_separator(before: Seq<char>, c: char, leaf: Seq<char>)
    requires
        !leaf.contains(c),
    ensures
        after_last(before + seq![c] + leaf, c) == leaf,
        after_last(leaf, c) == leaf,
{
    let s = before + seq![c] + leaf;
    let k = before.len() as int + 1;
    assert forall|i: int| k <= i < s.len() implies #[trigger] s[i] != c by {
        assert(s[i] == leaf[i - k]);
        assert(leaf.contains(leaf[i - k]));
    }
    lemma_after_last(s, c, k);
    assert(s.skip(k) =~= leaf);
    assert forall|i: int| 0 <= i < leaf.len() implies #[trigger] leaf[i] != c by {
        assert(leaf.contains(leaf[i]));
    }
    lemma_after_last(leaf, c, 0);
    assert(leaf.skip(0) =~= leaf);
}

/// A text holds a part exactly if it can be cut into what comes before the part, the part, and what
/// comes after it.
pub proof fn a_part_stands_between_two_others(before: Seq<char>, part: Seq<char>, after: Seq<char>, s: Seq<char>)
    ensures
        contains_text(before + part + after, part),
        contains_text(s, part) ==> exists|a: Seq<char>, b: Seq<char>| s == #[trigger] (a + part + b),
{
    let t = before + part + after;
    let k = before.len() as int;
    assert(t.subrange(k, k + part.len()) =~= part);
    assert(occurs_at(t, part, k));
    if contains_text(s, part) {
        let at = choose|at: int| occurs_at(s, part, at);
        let (a, b) = (s.take(at), s.skip(at + part.len()));
        assert(s =~= a + part + b) by {
            assert forall|i: int| 0 <= i < s.len() implies s[i] == #[trigger] (a + part + b)[i] by {
                if at <= i < at + part.len() {
                    assert(s.subrange(at, at + part.len())[i - at] == s[i]);
                }
            }
        }
    }
}

/// Lower case turns the capitals `A` to `Z` into `a` to `z`, and leaves every other character as it is.
pub proof fn only_capitals_are_lowered(s: Seq<char>, i: int)
    requires
        0 <= i < s.len(),
    ensures
        lowered(s).len() == s.len(),
        'A' <= s[i] <= 'Z' ==> lowered(s)[i] as int - 'a' as int == s[i] as int - 'A' as int,
        !('A' <= s[i] <= 'Z') ==> lowered(s)[i] == s[i],
{
    if 'A' <= s[i] <= 'Z' {
        assert(lowered(s)[i] == ascii_lower(s[i]));
        assert(ascii_lower(s[i]) as int == s[i] as int + 32);
    }
}

/// A suffix is taken off where it is there, once, and nothing else is.
pub proof fn a_suffix_is_taken_off_once(s: Seq<char>, suffix: Seq<char>)
    ensures
        without_suffix(s + suffix, suffix) == s,
        !ends_with(s, suffix) ==> without_suffix(s, suffix) == s,
        ends_with(s, suffix) <==> exists|rest: Seq<char>| s == #[trigger] (rest + suffix),
        starts_with(s, suffix) <==> exists|rest: Seq<char>| s == #[trigger] (suffix + rest),
{
    let n = s.len() as int;
    assert((s + suffix).skip(n) =~= suffix);
    assert((s + suffix).take(n) =~= s);
    if ends_with(s, suffix) {
        let rest = s.take(n - suffix.len());
        assert(s =~= rest + suffix) by {
            assert(s.take(n - suffix.len()) + s.skip(n - suffix.len()) =~= s);
        }
    }
    if exists|rest: Seq<char>| s == #[trigger] (rest + suffix) {
        let rest = choose|rest: Seq<char>| s == #[trigger] (rest + suffix);
        assert(s.skip(n - suffix.len()) =~= suffix);
    }
    if starts_with(s, suffix) {
        let rest = s.skip(suffix.len() as int);
        assert(s.take(suffix.len() as int) + rest =~= s);
        assert(s == suffix + rest);
    }
    if exists|rest: Seq<char>| s == #[trigger] (suffix + rest) {
        let rest = choose|rest: Seq<char>| s == #[trigger] (suffix + rest);
        assert(s.take(suffix.len() as int) =~= suffix);
    }
}

/// Beyond ASCII the white space is what Unicode counts as such: the next line, the spaces of various
/// widths, and the line and paragraph separators.
pub proof fn unicode_white_space(c: char)
    requires
        c > '\u{7f}',
    ensures
        is_white_space(c) <==> c == '\u{85}' || c == '\u{a0}' || c == '\u{1680}' || '\u{2000}' <= c <= '\u{200a}' || c
            == '\u{2028}' || c == '\u{2029}' || c == '\u{202f}' || c == '\u{205f}' || c == '\u{3000}',
{
}

} // verus!
