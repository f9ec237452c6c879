//! Text: numerals, padding, joining, lines and the other pieces that messages are made of.

use vstd::prelude::*;
use vstd::string::*;

verus! {

/// An optional text as a mathematical value.
pub open spec fn opt(o: Option<String>) -> Option<Seq<char>> {
    match o {
        Some(s) => Some(s@),
        None => None,
    }
}

/// The character of a decimal digit.
pub open spec fn digit(d: nat) -> char {
    (48 + d) as char
}

/// The decimal numeral of a natural number, without leading zeros.
pub open spec fn digits(n: nat) -> Seq<char>
    decreases n,
{
    if n < 10 {
        seq![digit(n)]
    } else {
        digits(n / 10).push(digit(n % 10))
    }
}

/// The character is a decimal digit.
pub open spec fn is_digit(c: char) -> bool {
    '0' <= c <= '9'
}

/// A numeral is made of digits, at least one.
pub(crate) proof fn lemma_digits(n: nat)
    ensures
        digits(n).len() > 0,
        forall|i: int| 0 <= i < digits(n).len() ==> is_digit(#[trigger] digits(n)[i]),
    decreases n,
{
    if n >= 10 {
        lemma_digits(n / 10);
    }
}

/// Different numbers have different numerals.
pub(crate) proof fn lemma_digits_differ(m: nat, n: nat)
    requires
        m != n,
    ensures
        digits(m) != digits(n),
    decreases m,
{
    lemma_digits(m / 10);
    lemma_digits(n / 10);
    if digits(m) == digits(n) {
        assert(digits(m).last() == digit(m % 10));
        assert(digits(n).last() == digit(n % 10));
        assert(m % 10 == n % 10);
        if m >= 10 && n >= 10 {
            assert(digits(m).drop_last() =~= digits(m / 10));
            assert(digits(n).drop_last() =~= digits(n / 10));
            lemma_digits_differ(m / 10, n / 10);
        }
    }
}

/// A number, a `-` and a text are read back one way only: the number ends at the first `-`.
pub(crate) proof fn lemma_numbered(m: nat, x: Seq<char>, n: nat, y: Seq<char>)
    requires
        digits(m) + "-"@ + x == digits(n) + "-"@ + y,
    ensures
        m == n,
        x == y,
{
    reveal_strlit("-");
    lemma_digits(m);
    lemma_digits(n);
    let dm = digits(m);
    let dn = digits(n);
    let all = dm + "-"@ + x;
    assert(all == dn + "-"@ + y);
    if dm.len() < dn.len() {
        assert(all[dm.len() as int] == '-');
        assert(is_digit(dn[dm.len() as int]));
    } else if dn.len() < dm.len() {
        assert(all[dn.len() as int] == '-');
        assert(is_digit(dm[dn.len() as int]));
    } else {
        assert(dm =~= all.subrange(0, dm.len() as int));
        assert(dn =~= all.subrange(0, dn.len() as int));
        if m != n {
            lemma_digits_differ(m, n);
        }
        assert(x =~= all.subrange(dm.len() as int + 1, all.len() as int));
        assert(y =~= all.subrange(dn.len() as int + 1, all.len() as int));
    }
}

/// The decimal numeral of an integer, with a leading `-` below zero.
pub open spec fn numeral(n: int) -> Seq<char> {
    if n < 0 {
        seq!['-'] + digits((-n) as nat)
    } else {
        digits(n as nat)
    }
}

/// A one-digit numeral.
fn digit_text(d: u64) -> (r: &'static str)
    requires
        d < 10,
    ensures
        r@ == seq![digit(d as nat)],
{
    proof {
        reveal_strlit("0");
        reveal_strlit("1");
        reveal_strlit("2");
        reveal_strlit("3");
        reveal_strlit("4");
        reveal_strlit("5");
        reveal_strlit("6");
        reveal_strlit("7");
        reveal_strlit("8");
        reveal_strlit("9");
    }
    if d == 0 {
        "0"
    } else if d == 1 {
        "1"
    } else if d == 2 {
        "2"
    } else if d == 3 {
        "3"
    } else if d == 4 {
        "4"
    } else if d == 5 {
        "5"
    } else if d == 6 {
        "6"
    } else if d == 7 {
        "7"
    } else if d == 8 {
        "8"
    } else {
        "9"
    }
}

/// The decimal numeral of an unsigned number.
pub fn unsigned(n: u64) -> (r: String)
    ensures
        r@ == digits(n as nat),
    decreases n,
{
    if n < 10 {
        digit_text(n).to_owned()
    } else {
        let mut s: String = unsigned(n / 10);
        s.append(digit_text(n % 10));
        proof {
            assert(s@ =~= digits(n as nat));
        }
        s
    }
}

/// The decimal numeral of a signed number.
pub fn signed(n: i32) -> (r: String)
    ensures
        r@ == numeral(n as int),
{
    if n < 0 {
        let mut s: String = "-".to_owned();
        proof {
            reveal_strlit("-");
            assert("-"@ =~= seq!['-']);
        }
        let m: i64 = -(n as i64);
        s.append(unsigned(m as u64).as_str());
        s
    } else {
        unsigned(n as u64)
    }
}

/// `n` spaces.
pub open spec fn blanks(n: nat) -> Seq<char> {
    Seq::new(n, |i: int| ' ')
}

/// `s` filled up with spaces on the right to `width` characters; a longer text stays as it is.
pub open spec fn padded(s: Seq<char>, width: nat) -> Seq<char> {
    if s.len() < width {
        s + blanks((width - s.len()) as nat)
    } else {
        s
    }
}

/// Left-aligns a text in a column of `width` characters.
pub fn pad_right(s: &str, width: usize) -> (r: String)
    ensures
        r@ == padded(s@, width as nat),
{
    let len: usize = s.unicode_len();
    let mut r: String = s.to_owned();
    let mut i: usize = len;
    proof {
        reveal_strlit(" ");
        assert(r@ =~= s@ + blanks(0));
    }
    while i < width
        invariant
            len == s@.len(),
            len <= i,
            i <= width || i == len,
            r@ == s@ + blanks((i - len) as nat),
        decreases width - i,
    {
        r.append(" ");
        proof {
            reveal_strlit(" ");
            assert(r@ =~= s@ + blanks((i + 1 - len) as nat));
        }
        i = i + 1;
    }
    proof {
        assert(r@ =~= padded(s@, width as nat));
    }
    r
}

/// Collects the characters of a text.
pub fn chars_of(s: &str) -> (r: Vec<char>)
    ensures
        r@ == s@,
{
    let mut v: Vec<char> = Vec::new();
    for c in it: s.chars()
        invariant
            v@ == it.seq().take(it.index() as int),
            it.seq() == s@,
    {
        v.push(c);
        proof {
            assert(v@ =~= it.seq().take(it.index() + 1));
        }
    }
    proof {
        assert(v@ =~= s@);
    }
    v
}

/// The place of the first line feed at or after `from`; the length of the text where there is none.
pub open spec fn line_end(s: Seq<char>, from: int) -> int
    decreases s.len() - from,
{
    if from < 0 || from >= s.len() || s[from] == '\n' {
        from
    } else {
        line_end(s, from + 1)
    }
}

/// A line that ended in a line feed, without the carriage return that may stand before it.
pub open spec fn without_return(line: Seq<char>) -> Seq<char> {
    if line.len() > 0 && line.last() == '\r' {
        line.drop_last()
    } else {
        line
    }
}

/// The lines of a text from `from` on. A line ends with a line feed, or a carriage return and a
/// line feed, neither of which belongs to it; the last line may lack its ending.
pub open spec fn lines_from(s: Seq<char>, from: int) -> Seq<Seq<char>>
    decreases s.len() - from,
    via lines_from_decreases
{
    if from < 0 || from >= s.len() {
        seq![]
    } else if line_end(s, from) >= s.len() {
        seq![s.subrange(from, s.len() as int)]
    } else {
        seq![without_return(s.subrange(from, line_end(s, from)))] + lines_from(
            s,
            line_end(s, from) + 1,
        )
    }
}

#[via_fn]
proof fn lines_from_decreases(s: Seq<char>, from: int) {
    if 0 <= from < s.len() {
        lemma_line_end(s, from);
    }
}

/// Where a line ends: not before its start, not past the end of the text, at the first line feed.
proof fn lemma_line_end(s: Seq<char>, from: int)
    requires
        0 <= from <= s.len(),
    ensures
        from <= line_end(s, from) <= s.len(),
        line_end(s, from) < s.len() ==> s[line_end(s, from)] == '\n',
        forall|i: int| from <= i < line_end(s, from) ==> s[i] != '\n',
    decreases s.len() - from,
{
    if from < s.len() && s[from] != '\n' {
        lemma_line_end(s, from + 1);
    }
}

/// The lines of a text.
pub open spec fn lines(s: Seq<char>) -> Seq<Seq<char>> {
    lines_from(s, 0)
}

/// The last `n` items of a sequence; all of them where there are fewer.
pub open spec fn last_of<A>(s: Seq<A>, n: nat) -> Seq<A> {
    if s.len() <= n {
        s
    } else {
        s.subrange(s.len() - n, s.len() as int)
    }
}

/// The parts one after the other, with `sep` between each two.
pub open spec fn joined(parts: Seq<Seq<char>>, sep: Seq<char>) -> Seq<char>
    decreases parts.len(),
{
    if parts.len() == 0 {
        seq![]
    } else if parts.len() == 1 {
        parts[0]
    } else {
        joined(parts.drop_last(), sep) + sep + parts.last()
    }
}

/// The parts of a text that spans pick out of it.
pub open spec fn slices(s: Seq<char>, spans: Seq<(usize, usize)>) -> Seq<Seq<char>> {
    spans.map_values(|p: (usize, usize)| s.subrange(p.0 as int, p.1 as int))
}

/// A span lies inside a text of `len` characters.
spec fn within(span: (usize, usize), len: nat) -> bool {
    span.0 <= span.1 <= len
}

/// Finds the lines of a text, each by the places where it starts and ends.
fn line_spans(v: &Vec<char>) -> (r: Vec<(usize, usize)>)
    ensures
        slices(v@, r@) == lines(v@),
        forall|i: int| 0 <= i < r@.len() ==> within(#[trigger] r@[i], v@.len()),
{
    let mut spans: Vec<(usize, usize)> = Vec::new();
    let mut start: usize = 0;
    let mut i: usize = 0;
    proof {
        assert(slices(v@, spans@) + lines_from(v@, 0) =~= lines(v@));
    }
    while i < v.len()
        invariant
            start <= i <= v@.len(),
            start < v@.len() ==> line_end(v@, start as int) == line_end(v@, i as int),
            slices(v@, spans@) + lines_from(v@, start as int) == lines(v@),
            forall|k: int| 0 <= k < spans@.len() ==> within(#[trigger] spans@[k], v@.len()),
        decreases v@.len() - i,
    {
        if v[i] == '\n' {
            let end: usize = if start < i && v[i - 1] == '\r' {
                i - 1
            } else {
                i
            };
            let ghost before = spans@;
            spans.push((start, end));
            proof {
                let line = v@.subrange(start as int, i as int);
                assert(v@.subrange(start as int, end as int) =~= without_return(line));
                assert(slices(v@, spans@) =~= slices(v@, before).push(without_return(line)));
                assert(slices(v@, spans@) + lines_from(v@, i + 1) =~= slices(v@, before)
                    + lines_from(v@, start as int));
            }
            start = i + 1;
        }
        i = i + 1;
    }
    if start < v.len() {
        let ghost before = spans@;
        spans.push((start, v.len()));
        proof {
            assert(slices(v@, spans@) =~= slices(v@, before) + lines_from(v@, start as int));
        }
    }
    proof {
        assert(slices(v@, spans@) =~= lines(v@));
    }
    spans
}

/// The last `n` lines of a text on one line, with `sep` between them.
pub fn tail_line(s: &str, n: usize, sep: &str) -> (r: String)
    ensures
        r@ == joined(last_of(lines(s@), n as nat), sep@),
{
    let v: Vec<char> = chars_of(s);
    let spans: Vec<(usize, usize)> = line_spans(&v);
    let first: usize = if spans.len() <= n {
        0
    } else {
        spans.len() - n
    };
    let mut r: String = String::new();
    let mut i: usize = first;
    let ghost all = lines(s@);
    proof {
        assert(all.subrange(first as int, first as int) =~= seq![]);
    }
    while i < spans.len()
        invariant
            first <= i <= spans@.len(),
            all == slices(s@, spans@),
            forall|k: int| 0 <= k < spans@.len() ==> within(#[trigger] spans@[k], s@.len()),
            r@ == joined(all.subrange(first as int, i as int), sep@),
        decreases spans@.len() - i,
    {
        let part: &str = s.substring_char(spans[i].0, spans[i].1);
        let ghost had = all.subrange(first as int, i as int);
        let ghost has = all.subrange(first as int, i + 1);
        proof {
            assert(has =~= had.push(part@));
            assert(has.drop_last() =~= had);
        }
        if i > first {
            r.append(sep);
        }
        r.append(part);
        proof {
            assert(r@ =~= joined(has, sep@));
        }
        i = i + 1;
    }
    proof {
        assert(all.subrange(first as int, spans@.len() as int) =~= last_of(all, n as nat));
    }
    r
}

/// `needle` stands in `s` at place `at`.
pub open spec fn stands_at(s: Seq<char>, needle: Seq<char>, at: int) -> bool {
    &&& 0 <= at
    &&& at + needle.len() <= s.len()
    &&& s.subrange(at, at + needle.len()) == needle
}

/// `rest` is what follows the last `needle` in `s`, or all of `s` where no `needle` stands in it.
pub open spec fn follows_last(s: Seq<char>, needle: Seq<char>, rest: Seq<char>) -> bool {
    ||| exists|at: int|
        {
            &&& #[trigger] stands_at(s, needle, at)
            &&& forall|b: int| at < b ==> !stands_at(s, needle, b)
            &&& rest == s.subrange(at + needle.len(), s.len() as int)
        }
    ||| (forall|b: int| !stands_at(s, needle, b)) && rest == s
}

/// The part of a text after the last `needle`; the whole text where there is none.
pub fn after_last(s: &str, needle: &str) -> (r: String)
    ensures
        follows_last(s@, needle@, r@),
{
    let n: usize = s.unicode_len();
    let m: usize = needle.unicode_len();
    let wanted: String = needle.to_owned();
    if m <= n {
        let mut k: usize = n - m;
        let mut more: bool = true;
        while more
            invariant
                n == s@.len(),
                m == needle@.len(),
                k + m <= n,
                wanted@ == needle@,
                forall|b: int| k < b ==> !stands_at(s@, needle@, b),
                !more ==> k == 0 && !stands_at(s@, needle@, 0),
            decreases k + if more { 1int } else { 0int },
        {
            if s.substring_char(k, k + m).to_owned() == wanted {
                proof {
                    assert(stands_at(s@, needle@, k as int));
                }
                return s.substring_char(k + m, n).to_owned();
            }
            if k == 0 {
                more = false;
            } else {
                k = k - 1;
            }
        }
    }
    s.to_owned()
}

/// The characters with the Unicode property `White_Space`.
pub open spec fn white(c: char) -> bool {
    let u = c as u32;
    ||| 0x9 <= u <= 0xd
    ||| u == 0x20
    ||| u == 0x85
    ||| u == 0xa0
    ||| u == 0x1680
    ||| 0x2000 <= u <= 0x200a
    ||| u == 0x2028
    ||| u == 0x2029
    ||| u == 0x202f
    ||| u == 0x205f
    ||| u == 0x3000
}

/// Nothing but white space stands between two places of a text.
pub open spec fn all_white(s: Seq<char>, from: int, to: int) -> bool {
    forall|i: int| from <= i < to ==> white(#[trigger] s[i])
}

/// `t` is `s` without the white space at its two ends.
pub open spec fn trimmed(s: Seq<char>, t: Seq<char>) -> bool {
    exists|a: int, b: int|
        {
            &&& 0 <= a <= b <= s.len()
            &&& t == #[trigger] s.subrange(a, b)
            &&& all_white(s, 0, a)
            &&& all_white(s, b, s.len() as int)
            &&& a < b ==> !white(s[a]) && !white(s[b - 1])
        }
}

/// Whether a character is white space.
fn is_white(c: char) -> (r: bool)
    ensures
        r == white(c),
{
    let u: u32 = c as u32;
    (0x9 <= u && u <= 0xd) || u == 0x20 || u == 0x85 || u == 0xa0 || u == 0x1680 || (0x2000 <= u
        && u <= 0x200a) || u == 0x2028 || u == 0x2029 || u == 0x202f || u == 0x205f || u == 0x3000
}

/// A text without the white space at its two ends.
pub fn trim(s: &str) -> (r: String)
    ensures
        trimmed(s@, r@),
{
    let v: Vec<char> = chars_of(s);
    let n: usize = v.len();
    let mut a: usize = 0;
    while a < n && is_white(v[a])
        invariant
            v@ == s@,
            n == v@.len(),
            a <= n,
            all_white(s@, 0, a as int),
        decreases n - a,
    {
        a = a + 1;
    }
    let mut b: usize = n;
    while a < b && is_white(v[b - 1])
        invariant
            v@ == s@,
            n == v@.len(),
            a <= b <= n,
            all_white(s@, b as int, n as int),
        decreases b,
    {
        b = b - 1;
    }
    proof {
        assert(a < b ==> !white(s@[a as int]));
    }
    s.substring_char(a, b).to_owned()
}

/// The text that `String::from_utf8_lossy` makes of bytes.
pub uninterp spec fn lossy(bytes: Seq<u8>) -> Seq<char>;

/// `String::from_utf8_lossy`: reads bytes as UTF-8, with replacement characters for what is not;
/// bytes that are UTF-8 come out as the text that they encode.
#[verifier::external_body]
pub(crate) fn from_utf8_lossy(bytes: &[u8]) -> (r: String)
    ensures
        r@ == lossy(bytes@),
        vstd::utf8::valid_utf8(bytes@) ==> r@ == vstd::utf8::decode_utf8(bytes@),
{
    String::from_utf8_lossy(bytes).into_owned()
}

/// An optional text is there just where the string is, and is its text.
pub proof fn law_optional_text(o: Option<String>)
    ensures
        opt(o) is Some <==> o is Some,
        o is Some ==> opt(o)->0 == o->0@,
{
}

/// Numerals are decimal: that of a number below ten is one character, `0` and so many further on,
/// and a digit that is put behind a number that is not zero stands behind its numeral.
pub proof fn law_numerals_are_decimal(m: nat, d: nat)
    requires
        d < 10,
    ensures
        digits(d).len() == 1,
        digits(d)[0] as int == '0' as int + d,
        m > 0 ==> digits(10 * m + d) == digits(m) + digits(d),
{
    if m > 0 {
        assert((10 * m + d) / 10 == m);
        assert((10 * m + d) % 10 == d);
        assert(digits(10 * m + d) =~= digits(m) + digits(d));
    }
}

/// Different numbers have different numerals, and below zero a `-` stands before the digits.
pub proof fn law_numerals_differ(m: int, n: int)
    ensures
        numeral(m) == numeral(n) <==> m == n,
        m >= 0 ==> numeral(m) == digits(m as nat),
        m < 0 ==> numeral(m)[0] == '-' && numeral(m).skip(1) == digits((-m) as nat),
{
    let a = if m < 0 { (-m) as nat } else { m as nat };
    let b = if n < 0 { (-n) as nat } else { n as nat };
    lemma_digits(a);
    lemma_digits(b);
    assert(is_digit(digits(a)[0]) && is_digit(digits(b)[0]));
    assert(m < 0 ==> numeral(m).skip(1) =~= digits(a));
    assert(n < 0 ==> numeral(n).skip(1) =~= digits(b));
    if a != b {
        lemma_digits_differ(a, b);
    }
}

/// A padded text begins with the text, goes on with spaces, and is as wide as the column or, where
/// the text is wider, as the text.
pub proof fn law_padding(s: Seq<char>, width: nat)
    ensures
        padded(s, width).len() == if s.len() < width {
            width
        } else {
            s.len()
        },
        s.is_prefix_of(padded(s, width)),
        forall|i: int| s.len() <= i < padded(s, width).len() ==> #[trigger] padded(s, width)[i] == ' ',
{
    assert(s =~= padded(s, width).subrange(0, s.len() as int));
}

/// Where a line ends does not depend on what stands before it.
proof fn lemma_line_end_behind(a: Seq<char>, b: Seq<char>, j: int)
    requires
        0 <= j <= b.len(),
    ensures
        line_end(a + b, a.len() + j) == a.len() + line_end(b, j),
    decreases b.len() - j,
{
    if j < b.len() && b[j] != '\n' {
        lemma_line_end_behind(a, b, j + 1);
    }
}

/// The lines from a place on do not depend on what stands before it.
proof fn lemma_lines_behind(a: Seq<char>, b: Seq<char>, j: int)
    requires
        0 <= j <= b.len(),
    ensures
        lines_from(a + b, a.len() + j) == lines_from(b, j),
    decreases b.len() - j,
{
    lemma_line_end(b, j);
    lemma_line_end_behind(a, b, j);
    let end = line_end(b, j);
    assert((a + b).subrange(a.len() + j, a.len() + end) =~= b.subrange(j, end));
    if j < b.len() && end < b.len() {
        lemma_lines_behind(a, b, end + 1);
    }
}

/// A line that ends inside a text ends there whatever stands behind the text.
proof fn lemma_line_end_before(a: Seq<char>, b: Seq<char>, i: int)
    requires
        0 <= i < a.len(),
        a.last() == '\n',
    ensures
        line_end(a + b, i) == line_end(a, i),
        line_end(a, i) < a.len(),
    decreases a.len() - i,
{
    if a[i] != '\n' {
        lemma_line_end_before(a, b, i + 1);
    }
}

/// The lines of a text that ends with one come before those of what stands behind it.
proof fn lemma_lines_before(a: Seq<char>, b: Seq<char>, i: int)
    requires
        0 <= i <= a.len(),
        a.len() > 0,
        a.last() == '\n',
    ensures
        lines_from(a + b, i) == lines_from(a, i) + lines(b),
    decreases a.len() - i,
{
    if i == a.len() {
        lemma_lines_behind(a, b, 0);
        assert(lines_from(a + b, i) =~= lines_from(a, i) + lines(b));
    } else {
        lemma_line_end(a, i);
        lemma_line_end_before(a, b, i);
        let end = line_end(a, i);
        assert((a + b).subrange(i, end) =~= a.subrange(i, end));
        lemma_lines_before(a, b, end + 1);
        assert(lines_from(a + b, i) =~= lines_from(a, i) + lines(b));
    }
}

/// Behind the end of a line the lines start anew: those of two texts, the first of which ends with
/// a line feed, are those of the one and then those of the other.
pub proof fn law_lines_of_two_texts(a: Seq<char>, b: Seq<char>)
    requires
        a.len() > 0,
        a.last() == '\n',
    ensures
        lines(a + b) == lines(a) + lines(b),
{
    lemma_lines_before(a, b, 0);
}

/// A text without a line feed is one line, and none where it is empty. With a line feed behind it,
/// it is one line in any case, and a carriage return before the line feed does not belong to it.
pub proof fn law_one_line(s: Seq<char>)
    requires
        !s.contains('\n'),
    ensures
        s.len() == 0 ==> lines(s).len() == 0,
        s.len() > 0 ==> lines(s) == seq![s],
        lines(s + seq!['\r', '\n']) == seq![s],
        s.len() == 0 || s.last() != '\r' ==> lines(s + seq!['\n']) == seq![s],
{
    lemma_line_end(s, 0);
    if line_end(s, 0) < s.len() {
        assert(s.contains(s[line_end(s, 0)]));
    }
    if s.len() > 0 {
        assert(s.subrange(0, s.len() as int) =~= s);
    }
    let t = s + seq!['\n'];
    lemma_line_end(t, 0);
    if line_end(t, 0) < s.len() {
        assert(s.contains(s[line_end(t, 0)]));
    }
    assert(t[s.len() as int] == '\n');
    assert(line_end(t, 0) == s.len());
    assert(t.subrange(0, s.len() as int) =~= s);
    assert(lines_from(t, t.len() as int).len() == 0);
    if s.len() == 0 || s.last() != '\r' {
        assert(lines(t) =~= seq![s]);
    }
    let u = s + seq!['\r', '\n'];
    lemma_line_end(u, 0);
    if line_end(u, 0) < s.len() {
        assert(s.contains(s[line_end(u, 0)]));
    }
    assert(u[s.len() as int] == '\r' && u[s.len() as int + 1] == '\n');
    assert(line_end(u, 0) == s.len() + 1);
    assert(without_return(u.subrange(0, s.len() as int + 1)) =~= s);
    assert(lines_from(u, u.len() as int).len() == 0);
    assert(lines(u) =~= seq![s]);
}

/// The last items of a sequence are as many as are asked for or, where there are fewer, all of
/// them, and they end it.
pub proof fn law_last_items<A>(s: Seq<A>, n: nat)
    ensures
        last_of(s, n).len() == if s.len() < n {
            s.len()
        } else {
            n
        },
        last_of(s, n).is_suffix_of(s),
{
    assert(last_of(s, n) =~= s.subrange(s.len() - last_of(s, n).len(), s.len() as int));
}

/// Joining keeps the parts and their order, with the separator just between two of them: nothing
/// joined is empty, one part is itself, and the parts of two sequences join to those of the one, a
/// separator, and those of the other.
pub proof fn law_joining(a: Seq<Seq<char>>, b: Seq<Seq<char>>, part: Seq<char>, sep: Seq<char>)
    ensures
        joined(Seq::empty(), sep).len() == 0,
        joined(seq![part], sep) == part,
        a.len() > 0 && b.len() > 0 ==> joined(a + b, sep) == joined(a, sep) + sep + joined(b, sep),
    decreases b.len(),
{
    if a.len() > 0 && b.len() > 0 {
        assert((a + b).drop_last() =~= a + b.drop_last());
        if b.len() == 1 {
            assert(a + b.drop_last() =~= a);
            assert(joined(a + b, sep) =~= joined(a, sep) + sep + joined(b, sep));
        } else {
            law_joining(a, b.drop_last(), part, sep);
            assert(joined(a + b, sep) =~= joined(a, sep) + sep + joined(b, sep));
        }
    }
}

/// What follows the last mark in a text is what was put behind it, as long as no further mark
/// begins in it; a text without the mark is taken whole. There is one answer for each text.
pub proof fn law_part_behind_the_last_mark(
    head: Seq<char>,
    mark: Seq<char>,
    rest: Seq<char>,
    r: Seq<char>,
)
    ensures
        (forall|b: int| b > 0 ==> !stands_at(mark + rest, mark, b)) ==> follows_last(
            head + mark + rest,
            mark,
            r,
        ) == (r == rest),
        (forall|b: int| !stands_at(head, mark, b)) ==> follows_last(head, mark, r) == (r == head),
{
    if forall|b: int| b > 0 ==> !stands_at(mark + rest, mark, b) {
        let whole = head + mark + rest;
        let tail = mark + rest;
        let at = head.len() as int;
        assert(whole.subrange(at, at + mark.len()) =~= mark);
        assert(stands_at(whole, mark, at));
        assert(whole.subrange(at + mark.len(), whole.len() as int) =~= rest);
        assert forall|b: int| at < b implies !stands_at(whole, mark, b) by {
            if stands_at(whole, mark, b) {
                assert(tail.subrange(b - at, b - at + mark.len()) =~= whole.subrange(
                    b,
                    b + mark.len(),
                ));
                assert(stands_at(tail, mark, b - at));
            }
        }
    }
}

/// The white space of Unicode: these twenty-five characters and no other.
pub proof fn law_white_space(c: char)
    ensures
        white(c) <==> seq![
            '\u{9}',
            '\u{a}',
            '\u{b}',
            '\u{c}',
            '\u{d}',
            '\u{20}',
            '\u{85}',
            '\u{a0}',
            '\u{1680}',
            '\u{2000}',
            '\u{2001}',
            '\u{2002}',
            '\u{2003}',
            '\u{2004}',
            '\u{2005}',
            '\u{2006}',
            '\u{2007}',
            '\u{2008}',
            '\u{2009}',
            '\u{200a}',
            '\u{2028}',
            '\u{2029}',
            '\u{202f}',
            '\u{205f}',
            '\u{3000}',
        ].contains(c),
{
    let all = seq![
        '\u{9}',
        '\u{a}',
        '\u{b}',
        '\u{c}',
        '\u{d}',
        '\u{20}',
        '\u{85}',
        '\u{a0}',
        '\u{1680}',
        '\u{2000}',
        '\u{2001}',
        '\u{2002}',
        '\u{2003}',
        '\u{2004}',
        '\u{2005}',
        '\u{2006}',
        '\u{2007}',
        '\u{2008}',
        '\u{2009}',
        '\u{200a}',
        '\u{2028}',
        '\u{2029}',
        '\u{202f}',
        '\u{205f}',
        '\u{3000}',
    ];
    let u = c as u32;
    if white(c) {
        let at: int = if u <= 0xd {
            u - 0x9
        } else if u == 0x20 {
            5
        } else if u == 0x85 {
            6
        } else if u == 0xa0 {
            7
        } else if u == 0x1680 {
            8
        } else if u <= 0x200a {
            9 + (u - 0x2000)
        } else if u == 0x2028 {
            20
        } else if u == 0x2029 {
            21
        } else if u == 0x202f {
            22
        } else if u == 0x205f {
            23
        } else {
            24
        };
        assert(all[at] == c);
    }
}

/// Trimming takes the white space at both ends off and nothing else: a text that begins and ends in
/// other characters comes back out of any white space around it, and white space alone leaves
/// nothing. There is one answer for each text.
pub proof fn law_trimming(before: Seq<char>, t: Seq<char>, after: Seq<char>, r: Seq<char>)
    requires
        forall|i: int| 0 <= i < before.len() ==> white(#[trigger] before[i]),
        forall|i: int| 0 <= i < after.len() ==> white(#[trigger] after[i]),
        t.len() > 0 ==> !white(t[0]) && !white(t.last()),
    ensures
        trimmed(before + t + after, r) == (r == t),
{
    let s = before + t + after;
    let from = before.len() as int;
    let to = from + t.len();
    assert(s.subrange(from, to) =~= t);
    assert(all_white(s, 0, from));
    assert forall|i: int| to <= i < s.len() implies white(#[trigger] s[i]) by {
        assert(s[i] == after[i - to]);
    }
    if t.len() > 0 {
        assert(s[from] == t[0] && s[to - 1] == t.last());
    } else {
        assert forall|i: int| 0 <= i < s.len() implies white(#[trigger] s[i]) by {
            if i < from {
                assert(s[i] == before[i]);
            } else {
                assert(s[i] == after[i - to]);
            }
        }
    }
    if trimmed(s, r) {
        let (a, b) = choose|a: int, b: int|
            {
                &&& 0 <= a <= b <= s.len()
                &&& r == #[trigger] s.subrange(a, b)
                &&& all_white(s, 0, a)
                &&& all_white(s, b, s.len() as int)
                &&& a < b ==> !white(s[a]) && !white(s[b - 1])
            };
        if t.len() > 0 {
            assert(a <= from) by {
                if a > from {
                    assert(white(s[from]));
                }
            }
            assert(b >= to) by {
                if b < to {
                    assert(white(s[to - 1]));
                }
            }
            assert(a == from && b == to) by {
                if a < from {
                    assert(white(before[a]));
                    assert(s[a] == before[a]);
                }
                if b > to {
                    assert(white(s[b - 1]));
                }
            }
        } else if a < b {
            assert(white(s[a]));
        }
        assert(r =~= t);
    }
}

} // verus!
