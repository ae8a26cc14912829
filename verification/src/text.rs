use vstd::prelude::*;
use vstd::string::*;
use vstd::utf8::*;

verus! {

/// The Unicode `White_Space` characters (what `char::is_whitespace` accepts).
pub open spec fn is_whitespace_spec(c: char) -> bool {
    let u = c as u32;
    ||| 0x9 <= u <= 0xD
    ||| u == 0x20
    ||| u == 0x85
    ||| u == 0xA0
    ||| u == 0x1680
    ||| 0x2000 <= u <= 0x200A
    ||| u == 0x2028
    ||| u == 0x2029
    ||| u == 0x202F
    ||| u == 0x205F
    ||| u == 0x3000
}

/// Number of whitespace characters at the start of `s`.
pub open spec fn leading_whitespace(s: Seq<char>) -> nat
    decreases s.len(),
{
    if s.len() > 0 && is_whitespace_spec(s[0]) {
        1 + leading_whitespace(s.drop_first())
    } else {
        0
    }
}

/// Number of whitespace characters at the end of `s`.
pub open spec fn trailing_whitespace(s: Seq<char>) -> nat
    decreases s.len(),
{
    if s.len() > 0 && is_whitespace_spec(s.last()) {
        1 + trailing_whitespace(s.drop_last())
    } else {
        0
    }
}

/// `s` without its leading and trailing whitespace.
pub open spec fn trimmed(s: Seq<char>) -> Seq<char> {
    if leading_whitespace(s) == s.len() {
        Seq::empty()
    } else {
        s.subrange(leading_whitespace(s) as int, s.len() - trailing_whitespace(s))
    }
}

/// Whether `c` is a Unicode whitespace character.
pub fn is_whitespace_char(c: char) -> (b: bool)
    ensures
        b == is_whitespace_spec(c),
{
    let u = c as u32;
    (0x9 <= u && u <= 0xD) || u == 0x20 || u == 0x85 || u == 0xA0 || u == 0x1680 || (0x2000 <= u
        && u <= 0x200A) || u == 0x2028 || u == 0x2029 || u == 0x202F || u == 0x205F || u == 0x3000
}

proof fn lemma_leading_step(s: Seq<char>, a: int)
    requires
        0 <= a < s.len(),
        is_whitespace_spec(s[a]),
    ensures
        leading_whitespace(s.subrange(a, s.len() as int)) == 1 + leading_whitespace(
            s.subrange(a + 1, s.len() as int),
        ),
{
    assert(s.subrange(a, s.len() as int).drop_first() =~= s.subrange(a + 1, s.len() as int));
}

proof fn lemma_trailing_step(s: Seq<char>, b: int)
    requires
        0 < b <= s.len(),
        is_whitespace_spec(s[b - 1]),
    ensures
        trailing_whitespace(s.subrange(0, b)) == 1 + trailing_whitespace(s.subrange(0, b - 1)),
{
    assert(s.subrange(0, b).drop_last() =~= s.subrange(0, b - 1));
}

/// The string with leading and trailing whitespace removed.
pub fn trim(s: &str) -> (t: String)
    ensures
        t@ == trimmed(s@),
{
    let n = s.unicode_len();
    let ghost v = s@;
    let mut a: usize = 0;
    assert(v.subrange(0, n as int) =~= v);
    while a < n && is_whitespace_char(s.get_char(a))
        invariant
            v == s@,
            n == v.len(),
            a <= n,
            leading_whitespace(v) == a + leading_whitespace(v.subrange(a as int, n as int)),
        decreases n - a,
    {
        proof {
            lemma_leading_step(v, a as int);
        }
        a = a + 1;
    }
    if a == n {
        assert(v.subrange(n as int, n as int).len() == 0);
        return String::new();
    }
    assert(leading_whitespace(v) == a) by {
        assert(!is_whitespace_spec(v[a as int]));
        assert(v.subrange(a as int, n as int)[0] == v[a as int]);
    }
    let mut b: usize = n;
    while b > a && is_whitespace_char(s.get_char(b - 1))
        invariant
            v == s@,
            n == v.len(),
            a < n,
            !is_whitespace_spec(v[a as int]),
            a < b <= n,
            trailing_whitespace(v) == (n - b) + trailing_whitespace(v.subrange(0, b as int)),
        decreases b,
    {
        proof {
            lemma_trailing_step(v, b as int);
        }
        b = b - 1;
    }
    assert(trailing_whitespace(v) == n - b) by {
        assert(!is_whitespace_spec(v[b - 1]));
        assert(v.subrange(0, b as int).last() == v[b - 1]);
    }
    let t = String::from_str(s.substring_char(a, b));
    t
}

/// The character of decimal digit `d` (0 to 9).
pub open spec fn digit_char(d: nat) -> char {
    "0123456789"@[d as int]
}

/// The decimal representation of `n`, without leading zeros.
pub open spec fn decimal_digits(n: nat) -> Seq<char>
    decreases n,
{
    if n < 10 {
        seq![digit_char(n)]
    } else {
        decimal_digits(n / 10).push(digit_char(n % 10))
    }
}

/// The one-character string of decimal digit `d`.
fn digit_str(d: u32) -> (s: &'static str)
    requires
        d < 10,
    ensures
        s@ == seq![digit_char(d as nat)],
{
    let digits = "0123456789";
    proof {
        reveal_strlit("0123456789");
    }
    let s = digits.substring_char(d as usize, (d + 1) as usize);
    assert(s@ =~= seq![digit_char(d as nat)]);
    s
}

/// `n` written in decimal.
pub fn decimal_string(n: u32) -> (s: String)
    ensures
        s@ == decimal_digits(n as nat),
    decreases n,
{
    if n < 10 {
        String::from_str(digit_str(n))
    } else {
        let mut s = decimal_string(n / 10);
        s.append(digit_str(n % 10));
        s
    }
}

/// The first position at or after `i` where `c` occurs in `s`.
pub open spec fn index_of_from(s: Seq<char>, c: char, i: nat) -> Option<nat>
    decreases s.len() - i,
{
    if i >= s.len() {
        None
    } else if s[i as int] == c {
        Some(i)
    } else {
        index_of_from(s, c, i + 1)
    }
}

/// The first position where `c` occurs in `s`.
pub open spec fn index_of(s: Seq<char>, c: char) -> Option<nat> {
    index_of_from(s, c, 0)
}

/// A found position holds `c`, lies in `s`, and no earlier position from
/// `k` on holds `c`.
pub proof fn lemma_index_of_from(s: Seq<char>, c: char, k: nat)
    ensures
        index_of_from(s, c, k) matches Some(i) ==> k <= i < s.len() && s[i as int] == c && forall|
            j: int,
        | k <= j < i ==> s[j] != c,
        index_of_from(s, c, k) is None ==> forall|j: int| k <= j < s.len() ==> s[j] != c,
    decreases s.len() - k,
{
    if k < s.len() && s[k as int] != c {
        lemma_index_of_from(s, c, k + 1);
    }
}

/// The part of `s` before the first `c` (all of `s` when there is none):
/// what `s.split(c).next()` yields.
pub open spec fn prefix_before(s: Seq<char>, c: char) -> Seq<char> {
    match index_of(s, c) {
        Some(i) => s.subrange(0, i as int),
        None => s,
    }
}

/// The first position of `c` in `s`.
pub fn index_of_char(s: &str, c: char) -> (r: Option<usize>)
    ensures
        r matches Some(i) ==> index_of(s@, c) == Some(i as nat) && i < s@.len(),
        r is None ==> index_of(s@, c) is None,
{
    proof {
        lemma_index_of_from(s@, c, 0);
    }
    let n = s.unicode_len();
    let mut i: usize = 0;
    while i < n
        invariant
            n == s@.len(),
            i <= n,
            index_of(s@, c) == index_of_from(s@, c, i as nat),
        decreases n - i,
    {
        if s.get_char(i) == c {
            return Some(i);
        }
        i = i + 1;
    }
    None
}

/// `needle` occurs in `hay` starting at byte `i`.
pub open spec fn occurs_at(hay: Seq<u8>, needle: Seq<u8>, i: int) -> bool {
    0 <= i && i + needle.len() <= hay.len() && hay.subrange(i, i + needle.len()) == needle
}

/// `needle` occurs somewhere in `hay`.
pub open spec fn bytes_contain(hay: Seq<u8>, needle: Seq<u8>) -> bool {
    exists|i: int| occurs_at(hay, needle, i)
}

/// `needle`'s UTF-8 bytes occur in `hay`'s (what `str::contains` tests).
pub open spec fn text_contains(hay: Seq<char>, needle: Seq<char>) -> bool {
    bytes_contain(encode_utf8(hay), encode_utf8(needle))
}

/// Whether `needle` occurs at byte `i` of `hay`.
fn bytes_match_at(hay: &[u8], needle: &[u8], i: usize) -> (b: bool)
    requires
        i + needle.len() <= hay.len(),
    ensures
        b == occurs_at(hay@, needle@, i as int),
{
    let m = needle.len();
    for k in 0..m
        invariant
            m == needle@.len(),
            i + m <= hay.len(),
            forall|q: int| 0 <= q < k ==> hay@[i + q] == needle@[q],
    {
        if hay[i + k] != needle[k] {
            assert(hay@.subrange(i as int, i + m)[k as int] != needle@[k as int]);
            return false;
        }
    }
    assert(hay@.subrange(i as int, i + m) =~= needle@);
    true
}

/// Whether `needle` occurs in `hay`.
pub fn str_contains(hay: &str, needle: &str) -> (b: bool)
    ensures
        b == text_contains(hay@, needle@),
{
    let h = hay.as_bytes();
    let n = needle.as_bytes();
    if n.len() > h.len() {
        return false;
    }
    let last = h.len() - n.len();
    let mut i: usize = 0;
    loop
        invariant
            h@ == hay.spec_bytes(),
            n@ == needle.spec_bytes(),
            last == h.len() - n.len(),
            i <= last,
            forall|j: int| 0 <= j < i ==> !occurs_at(h@, n@, j),
        ensures
            forall|j: int| 0 <= j <= last ==> !occurs_at(h@, n@, j),
        decreases last - i,
    {
        if bytes_match_at(h, n, i) {
            return true;
        }
        if i == last {
            break;
        }
        i = i + 1;
    }
    assert forall|j: int| !occurs_at(h@, n@, j) by {
        if 0 <= j && j + n@.len() <= h@.len() {
            assert(j <= last);
        }
    }
    false
}

/// Lexicographic order on byte strings (a proper prefix comes first): the
/// order of `str` and `String`.
pub open spec fn bytes_le(a: Seq<u8>, b: Seq<u8>) -> bool
    decreases a.len(),
{
    if a.len() == 0 {
        true
    } else if b.len() == 0 {
        false
    } else if a[0] < b[0] {
        true
    } else if a[0] > b[0] {
        false
    } else {
        bytes_le(a.drop_first(), b.drop_first())
    }
}

/// `bytes_le` is total.
pub proof fn lemma_bytes_le_total(a: Seq<u8>, b: Seq<u8>)
    ensures
        bytes_le(a, b) || bytes_le(b, a),
    decreases a.len(),
{
    if a.len() > 0 && b.len() > 0 && a[0] == b[0] {
        lemma_bytes_le_total(a.drop_first(), b.drop_first());
    }
}

/// `bytes_le` is transitive.
pub proof fn lemma_bytes_le_transitive(a: Seq<u8>, b: Seq<u8>, c: Seq<u8>)
    requires
        bytes_le(a, b),
        bytes_le(b, c),
    ensures
        bytes_le(a, c),
    decreases a.len(),
{
    if a.len() > 0 && b.len() > 0 && c.len() > 0 && a[0] == b[0] && b[0] == c[0] {
        lemma_bytes_le_transitive(a.drop_first(), b.drop_first(), c.drop_first());
    }
}

/// Whether `a` comes no later than `b` in lexicographic byte order.
pub fn str_le(a: &str, b: &str) -> (r: bool)
    ensures
        r == bytes_le(a.spec_bytes(), b.spec_bytes()),
{
    let x = a.as_bytes();
    let y = b.as_bytes();
    let mut i: usize = 0;
    assert(x@.subrange(0, x@.len() as int) =~= x@);
    assert(y@.subrange(0, y@.len() as int) =~= y@);
    loop
        invariant
            x@ == a.spec_bytes(),
            y@ == b.spec_bytes(),
            i <= x@.len(),
            i <= y@.len(),
            bytes_le(x@, y@) == bytes_le(x@.subrange(i as int, x@.len() as int), y@.subrange(i as int, y@.len() as int)),
        decreases x@.len() - i,
    {
        let ghost xs = x@.subrange(i as int, x@.len() as int);
        let ghost ys = y@.subrange(i as int, y@.len() as int);
        if i == x.len() {
            return true;
        }
        if i == y.len() {
            return false;
        }
        if x[i] < y[i] {
            return true;
        }
        if x[i] > y[i] {
            return false;
        }
        assert(xs.drop_first() =~= x@.subrange(i + 1, x@.len() as int));
        assert(ys.drop_first() =~= y@.subrange(i + 1, y@.len() as int));
        i = i + 1;
    }
}

/// The texts of a list of strings.
pub open spec fn strings_view(v: Seq<String>) -> Seq<Seq<char>> {
    Seq::new(v.len(), |i: int| v[i]@)
}

/// `l` without one trailing carriage return.
pub open spec fn without_cr(l: Seq<char>) -> Seq<char> {
    if l.len() > 0 && l.last() == '\r' {
        l.drop_last()
    } else {
        l
    }
}

/// The lines of `s` as `str::lines` yields them: `s` split at each
/// '\n', with a '\r' just before the '\n' dropped; a final '\n' ends the
/// last line rather than starting an empty one.
pub open spec fn lines_of(s: Seq<char>) -> Seq<Seq<char>>
    decreases s.len(),
{
    if s.len() == 0 {
        Seq::empty()
    } else {
        proof {
            lemma_index_of_from(s, '\n', 0);
        }
        match index_of(s, '\n') {
            Some(i) => seq![without_cr(s.subrange(0, i as int))] + lines_of(
                s.subrange(i as int + 1, s.len() as int),
            ),
            None => seq![s],
        }
    }
}

/// `line` without one trailing carriage return.
fn strip_cr(line: &str) -> (r: String)
    ensures
        r@ == without_cr(line@),
{
    let n = line.unicode_len();
    if n > 0 && line.get_char(n - 1) == '\r' {
        let kept = line.substring_char(0, n - 1);
        assert(kept@ =~= line@.drop_last());
        String::from_str(kept)
    } else {
        String::from_str(line)
    }
}

/// The lines of `s` (see `lines_of`).
pub fn lines(s: &str) -> (ls: Vec<String>)
    ensures
        strings_view(ls@) == lines_of(s@),
{
    let mut out: Vec<String> = Vec::new();
    let mut rest: &str = s;
    assert(strings_view(out@) + lines_of(rest@) =~= lines_of(s@));
    loop
        invariant_except_break
            strings_view(out@) + lines_of(rest@) == lines_of(s@),
        ensures
            strings_view(out@) == lines_of(s@),
        decreases rest@.len(),
    {
        let n = rest.unicode_len();
        if n == 0 {
            assert(strings_view(out@) =~= strings_view(out@) + lines_of(rest@));
            break;
        }
        proof {
            lemma_index_of_from(rest@, '\n', 0);
        }
        let ghost before = out@;
        match index_of_char(rest, '\n') {
            Some(i) => {
                let line = strip_cr(rest.substring_char(0, i));
                let next = rest.substring_char(i + 1, n);
                out.push(line);
                assert(strings_view(out@) =~= strings_view(before).push(line@));
                assert(lines_of(rest@) == seq![line@] + lines_of(next@));
                assert(strings_view(out@) + lines_of(next@) =~= strings_view(before) + lines_of(rest@));
                rest = next;
            },
            None => {
                out.push(String::from_str(rest));
                assert(strings_view(out@) =~= strings_view(before) + lines_of(rest@));
                break;
            },
        }
    }
    out
}

/// What `String::from_utf8_lossy` makes of a byte sequence.
pub uninterp spec fn utf8_lossy_spec(bytes: Seq<u8>) -> Seq<char>;

/// Calls `String::from_utf8_lossy` (and takes the owned string). Claims:
/// the result is a function of the bytes alone, and bytes that are valid
/// UTF-8 decode to exactly the characters they encode. What replaces an
/// invalid sequence (U+FFFD) is left unsaid.
#[verifier::external_body]
pub(crate) fn utf8_lossy(bytes: &[u8]) -> (s: String)
    ensures
        s@ == utf8_lossy_spec(bytes@),
        valid_utf8(bytes@) ==> s@ == decode_utf8(bytes@),
{
    String::from_utf8_lossy(bytes).into_owned()
}

/// Label text from raw bytes: decoded as UTF-8 (invalid sequences
/// replaced) and trimmed of surrounding whitespace.
pub fn label_text(bytes: &[u8]) -> (t: String)
    ensures
        t@ == trimmed(utf8_lossy_spec(bytes@)),
        valid_utf8(bytes@) ==> t@ == trimmed(decode_utf8(bytes@)),
{
    let decoded = utf8_lossy(bytes);
    trim(decoded.as_str())
}

} // verus!
