//! Text handling on character sequences.
//!
//! Everything gwt reads is text: git's porcelain output, branch names, paths.
//! The functions here work on a `Vec<char>` taken from a string once, and
//! describe their results with the `str` semantics they follow (`lines`,
//! `trim`, `split_once`, ...), each stated as a spec function.
use vstd::prelude::*;

verus! {

/// Characters of a string as a sequence.
pub open spec fn views(v: Seq<String>) -> Seq<Seq<char>> {
    v.map_values(|s: String| s@)
}

/// `char::is_whitespace`: the Unicode `White_Space` property.
pub open spec fn is_ws(c: char) -> bool {
    let u = c as u32;
    ||| 9 <= u <= 13
    ||| u == 32
    ||| u == 0x85
    ||| u == 0xA0
    ||| u == 0x1680
    ||| 0x2000 <= u <= 0x200A
    ||| u == 0x2028
    ||| u == 0x2029
    ||| u == 0x202F
    ||| u == 0x205F
    ||| u == 0x3000
}

pub fn is_whitespace(c: char) -> (r: bool)
    ensures
        r == is_ws(c),
{
    let u = c as u32;
    (9 <= u && u <= 13) || u == 32 || u == 0x85 || u == 0xA0 || u == 0x1680 || (0x2000 <= u
        && u <= 0x200A) || u == 0x2028 || u == 0x2029 || u == 0x202F || u == 0x205F || u == 0x3000
}

/// Number of characters left after removing trailing whitespace.
pub open spec fn trim_end_len(s: Seq<char>) -> nat
    decreases s.len(),
{
    if s.len() > 0 && is_ws(s.last()) {
        trim_end_len(s.drop_last())
    } else {
        s.len()
    }
}

/// Number of leading whitespace characters.
pub open spec fn trim_start_len(s: Seq<char>) -> nat
    decreases s.len(),
{
    if s.len() > 0 && is_ws(s[0]) {
        1 + trim_start_len(s.drop_first())
    } else {
        0
    }
}

/// `str::trim_end`.
pub open spec fn trim_end(s: Seq<char>) -> Seq<char> {
    s.take(trim_end_len(s) as int)
}

/// `str::trim_start`.
pub open spec fn trim_start(s: Seq<char>) -> Seq<char> {
    s.skip(trim_start_len(s) as int)
}

/// `str::trim`.
pub open spec fn trim(s: Seq<char>) -> Seq<char> {
    trim_start(trim_end(s))
}

pub proof fn lemma_trim_bounds(s: Seq<char>)
    ensures
        trim_end_len(s) <= s.len(),
        trim_start_len(s) <= s.len(),
    decreases s.len(),
{
    if s.len() > 0 {
        lemma_trim_bounds(s.drop_last());
        lemma_trim_bounds(s.drop_first());
    }
}

/// Index of the first `c` in `s`, or -1.
pub open spec fn index_of(s: Seq<char>, c: char) -> int
    decreases s.len(),
{
    if s.len() == 0 {
        -1
    } else if s[0] == c {
        0
    } else {
        let r = index_of(s.drop_first(), c);
        if r < 0 {
            -1
        } else {
            r + 1
        }
    }
}

pub proof fn lemma_index_of(s: Seq<char>, c: char)
    ensures
        -1 <= index_of(s, c) < s.len(),
        index_of(s, c) >= 0 ==> s[index_of(s, c)] == c,
        forall|k: int| 0 <= k < s.len() && (index_of(s, c) < 0 || k < index_of(s, c)) ==> s[k] != c,
    decreases s.len(),
{
    if s.len() > 0 && s[0] != c {
        lemma_index_of(s.drop_first(), c);
        assert forall|k: int|
            0 <= k < s.len() && (index_of(s, c) < 0 || k < index_of(s, c)) implies s[k] != c by {
            if k > 0 {
                assert(s[k] == s.drop_first()[k - 1]);
            }
        }
    }
}

/// `index_of` is determined by the first match.
pub proof fn lemma_index_of_at(s: Seq<char>, c: char, k: int)
    requires
        0 <= k <= s.len(),
        forall|i: int| 0 <= i < k ==> s[i] != c,
        k < s.len() ==> s[k] == c,
    ensures
        index_of(s, c) == (if k < s.len() { k } else { -1 }),
{
    lemma_index_of(s, c);
    if index_of(s, c) >= 0 && index_of(s, c) < k {
        assert(s[index_of(s, c)] == c);
    }
}

/// Drops one `\r` at the end.
pub open spec fn strip_cr(s: Seq<char>) -> Seq<char> {
    if s.len() > 0 && s.last() == '\r' {
        s.drop_last()
    } else {
        s
    }
}

/// `str::lines`: split at `\n` or `\r\n`; a final line ending adds no line.
pub open spec fn lines(s: Seq<char>) -> Seq<Seq<char>>
    decreases s.len(),
{
    if s.len() == 0 {
        seq![]
    } else {
        let i = index_of(s, '\n');
        proof {
            lemma_index_of(s, '\n');
        }
        if i < 0 {
            seq![s]
        } else {
            seq![strip_cr(s.take(i))] + lines(s.skip(i + 1))
        }
    }
}

/// `str::split` on a single character.
pub open spec fn split(s: Seq<char>, c: char) -> Seq<Seq<char>>
    decreases s.len(),
{
    let i = index_of(s, c);
    proof {
        lemma_index_of(s, c);
    }
    if i < 0 {
        seq![s]
    } else {
        seq![s.take(i)] + split(s.skip(i + 1), c)
    }
}

/// The pieces of `parts` with `sep` between each two.
pub open spec fn join(parts: Seq<Seq<char>>, sep: Seq<char>) -> Seq<char>
    decreases parts.len(),
{
    if parts.len() == 0 {
        seq![]
    } else if parts.len() == 1 {
        parts[0]
    } else {
        join(parts.drop_last(), sep) + sep + parts.last()
    }
}

/// Each line trimmed, the empty ones dropped: what `lines().map(str::trim)
/// .filter(|l| !l.is_empty())` yields.
pub open spec fn trimmed_nonempty(ls: Seq<Seq<char>>) -> Seq<Seq<char>>
    decreases ls.len(),
{
    if ls.len() == 0 {
        seq![]
    } else if trim(ls.last()).len() > 0 {
        trimmed_nonempty(ls.drop_last()).push(trim(ls.last()))
    } else {
        trimmed_nonempty(ls.drop_last())
    }
}

/// `str::strip_prefix`.
pub open spec fn strip_prefix(s: Seq<char>, p: Seq<char>) -> Option<Seq<char>> {
    if p.len() <= s.len() && s.take(p.len() as int) == p {
        Some(s.skip(p.len() as int))
    } else {
        None
    }
}

/// Whether `needle` occurs in `s` (`str::contains`).
pub open spec fn contains(s: Seq<char>, needle: Seq<char>) -> bool {
    exists|i: int| 0 <= i && i + needle.len() <= s.len() && #[trigger] s.subrange(i, i + needle.len()) == needle
}

/// `s` without its leading `c`s (`str::trim_start_matches` with a char).
pub open spec fn trim_start_char(s: Seq<char>, c: char) -> Seq<char>
    decreases s.len(),
{
    if s.len() > 0 && s[0] == c {
        trim_start_char(s.drop_first(), c)
    } else {
        s
    }
}

/// `s` without its trailing `c`s (`str::trim_end_matches` with a char).
pub open spec fn trim_end_char(s: Seq<char>, c: char) -> Seq<char>
    decreases s.len(),
{
    if s.len() > 0 && s.last() == c {
        trim_end_char(s.drop_last(), c)
    } else {
        s
    }
}

pub open spec fn is_digit(c: char) -> bool {
    '0' <= c <= '9'
}

pub open spec fn all_digits(s: Seq<char>) -> bool {
    forall|i: int| 0 <= i < s.len() ==> is_digit(#[trigger] s[i])
}

/// The number a string of decimal digits spells.
pub open spec fn digits_value(s: Seq<char>) -> nat
    decreases s.len(),
{
    if s.len() == 0 {
        0
    } else {
        digits_value(s.drop_last()) * 10 + ((s.last() as u32) - ('0' as u32)) as nat
    }
}

/// `str::parse::<usize>`: an optional `+`, then one or more decimal digits
/// whose value fits.
pub open spec fn parse_usize(s: Seq<char>) -> Option<usize> {
    let d = if s.len() > 0 && s[0] == '+' {
        s.drop_first()
    } else {
        s
    };
    if d.len() > 0 && all_digits(d) && digits_value(d) <= usize::MAX {
        Some(digits_value(d) as usize)
    } else {
        None
    }
}

/// Decimal digits of `n`, as `n.to_string()` writes them.
pub open spec fn decimal(n: nat) -> Seq<char>
    decreases n,
{
    if n < 10 {
        seq![digit_char(n)]
    } else {
        decimal(n / 10).push(digit_char(n % 10))
    }
}

pub open spec fn digit_char(d: nat) -> char {
    if d == 0 {
        '0'
    } else if d == 1 {
        '1'
    } else if d == 2 {
        '2'
    } else if d == 3 {
        '3'
    } else if d == 4 {
        '4'
    } else if d == 5 {
        '5'
    } else if d == 6 {
        '6'
    } else if d == 7 {
        '7'
    } else if d == 8 {
        '8'
    } else {
        '9'
    }
}

/// Each line without trailing whitespace, the empty ones dropped.
pub open spec fn end_trimmed_nonempty(ls: Seq<Seq<char>>) -> Seq<Seq<char>>
    decreases ls.len(),
{
    if ls.len() == 0 {
        seq![]
    } else if trim_end(ls.last()).len() > 0 {
        end_trimmed_nonempty(ls.drop_last()).push(trim_end(ls.last()))
    } else {
        end_trimmed_nonempty(ls.drop_last())
    }
}

/// `n` spaces.
pub open spec fn spaces(n: nat) -> Seq<char> {
    Seq::new(n, |i: int| ' ')
}

/// `s` padded with spaces to `width` characters (`{:<width}`); a longer `s`
/// is left as it is.
pub open spec fn pad(s: Seq<char>, width: nat) -> Seq<char> {
    if s.len() < width {
        s + spaces((width - s.len()) as nat)
    } else {
        s
    }
}

/// The length of the longest of `v`, or 0.
pub open spec fn max_len(v: Seq<Seq<char>>) -> nat
    decreases v.len(),
{
    if v.len() == 0 {
        0
    } else {
        let m = max_len(v.drop_last());
        if v.last().len() > m {
            v.last().len()
        } else {
            m
        }
    }
}

/// The characters of a string.
pub fn to_chars(s: &str) -> (v: Vec<char>)
    ensures
        v@ == s@,
{
    broadcast use vstd::string::group_string_axioms;

    let mut v: Vec<char> = Vec::new();
    for c in it: s.chars()
        invariant
            v@ == it.seq().take(it.index() as int),
    {
        v.push(c);
    }
    v
}

/// Calls `String::push`. Claimed of it: the string afterwards is the string
/// before with `c` added at the end, and nothing else changes.
#[verifier::external_body]
pub(crate) fn push_char(s: &mut String, c: char)
    ensures
        final(s)@ == old(s)@.push(c),
{
    s.push(c);
}

/// `String::from_utf8_lossy`: the bytes as UTF-8, each invalid sequence
/// replaced by U+FFFD.
pub uninterp spec fn utf8_lossy(bytes: Seq<u8>) -> Seq<char>;

/// Calls `String::from_utf8_lossy` and takes its result as an owned string.
/// Claimed of it: the characters depend on the bytes alone, and are named
/// `utf8_lossy`; bytes that are all ASCII, which is valid UTF-8, come out as
/// the same characters. How other sequences decode is left unsaid.
#[verifier::external_body]
pub(crate) fn from_utf8_lossy(bytes: &[u8]) -> (r: String)
    ensures
        r@ == utf8_lossy(bytes@),
        (forall|i: int| 0 <= i < bytes@.len() ==> #[trigger] bytes@[i] < 128) ==> r@
            == bytes@.map_values(|b: u8| b as char),
{
    String::from_utf8_lossy(bytes).into_owned()
}

/// Appends `t` to `s`.
pub fn push_str(s: &mut String, t: &str)
    ensures
        final(s)@ == old(s)@ + t@,
{
    s.append(t);
}

/// A string from the characters `v[lo..hi]`.
pub fn string_of(v: &Vec<char>, lo: usize, hi: usize) -> (s: String)
    requires
        lo <= hi <= v.len(),
    ensures
        s@ == v@.subrange(lo as int, hi as int),
{
    let mut s = String::new();
    let mut i = lo;
    while i < hi
        invariant
            lo <= i <= hi <= v.len(),
            s@ == v@.subrange(lo as int, i as int),
        decreases hi - i,
    {
        push_char(&mut s, v[i]);
        assert(v@.subrange(lo as int, i + 1) == v@.subrange(lo as int, i as int).push(v@[i as int]));
        i = i + 1;
    }
    s
}

/// A string holding the characters of `v`.
pub fn from_chars(v: &Vec<char>) -> (s: String)
    ensures
        s@ == v@,
{
    let s = string_of(v, 0, v.len());
    assert(v@.subrange(0, v.len() as int) == v@);
    s
}

/// A copy of a string.
pub fn copy(s: &String) -> (r: String)
    ensures
        r@ == s@,
{
    s.clone()
}

/// A string from a literal.
pub fn string(s: &str) -> (r: String)
    ensures
        r@ == s@,
{
    String::from_str(s)
}

/// Whether two strings have the same characters.
pub fn eq(a: &str, b: &str) -> (r: bool)
    ensures
        r == (a@ == b@),
{
    let x = to_chars(a);
    let y = to_chars(b);
    assert(x@.subrange(0, x.len() as int) == x@);
    assert(y@.subrange(0, y.len() as int) == y@);
    seq_eq(&x, 0, x.len(), &y, 0, y.len())
}

/// Whether `a[alo..ahi]` and `b[blo..bhi]` hold the same characters.
pub fn seq_eq(a: &Vec<char>, alo: usize, ahi: usize, b: &Vec<char>, blo: usize, bhi: usize) -> (r:
    bool)
    requires
        alo <= ahi <= a.len(),
        blo <= bhi <= b.len(),
    ensures
        r == (a@.subrange(alo as int, ahi as int) == b@.subrange(blo as int, bhi as int)),
{
    if ahi - alo != bhi - blo {
        assert(a@.subrange(alo as int, ahi as int).len() != b@.subrange(blo as int, bhi as int).len());
        return false;
    }
    let n = ahi - alo;
    let mut i: usize = 0;
    while i < n
        invariant
            n == ahi - alo == bhi - blo,
            alo <= ahi <= a.len(),
            blo <= bhi <= b.len(),
            i <= n,
            a@.subrange(alo as int, alo + i) == b@.subrange(blo as int, blo + i),
        decreases n - i,
    {
        if a[alo + i] != b[blo + i] {
            assert(a@.subrange(alo as int, ahi as int)[i as int] != b@.subrange(
                blo as int,
                bhi as int,
            )[i as int]);
            return false;
        }
        assert(a@.subrange(alo as int, alo + i + 1) == a@.subrange(alo as int, alo + i).push(
            a@[alo + i],
        ));
        assert(b@.subrange(blo as int, blo + i + 1) == b@.subrange(blo as int, blo + i).push(
            b@[blo + i],
        ));
        i = i + 1;
    }
    assert(a@.subrange(alo as int, ahi as int) =~= b@.subrange(blo as int, bhi as int));
    true
}

/// End of `v[lo..hi]` once trailing whitespace is removed.
pub fn trim_end_at(v: &Vec<char>, lo: usize, hi: usize) -> (e: usize)
    requires
        lo <= hi <= v.len(),
    ensures
        lo <= e <= hi,
        e - lo == trim_end_len(v@.subrange(lo as int, hi as int)),
{
    let mut e = hi;
    while e > lo && is_whitespace(v[e - 1])
        invariant
            lo <= e <= hi <= v.len(),
            trim_end_len(v@.subrange(lo as int, e as int)) == trim_end_len(
                v@.subrange(lo as int, hi as int),
            ),
        decreases e,
    {
        assert(v@.subrange(lo as int, e as int).drop_last() == v@.subrange(lo as int, e - 1));
        e = e - 1;
    }
    e
}

/// Start of `v[lo..hi]` once leading whitespace is removed.
pub fn trim_start_at(v: &Vec<char>, lo: usize, hi: usize) -> (b: usize)
    requires
        lo <= hi <= v.len(),
    ensures
        lo <= b <= hi,
        b - lo == trim_start_len(v@.subrange(lo as int, hi as int)),
{
    let mut b = lo;
    while b < hi && is_whitespace(v[b])
        invariant
            lo <= b <= hi <= v.len(),
            trim_start_len(v@.subrange(lo as int, hi as int)) == (b - lo) + trim_start_len(
                v@.subrange(b as int, hi as int),
            ),
        decreases hi - b,
    {
        assert(v@.subrange(b as int, hi as int).drop_first() == v@.subrange(b + 1, hi as int));
        b = b + 1;
    }
    b
}

/// `str::trim`.
pub fn trim_str(s: &str) -> (r: String)
    ensures
        r@ == trim(s@),
{
    let v = to_chars(s);
    let e = trim_end_at(&v, 0, v.len());
    let b = trim_start_at(&v, 0, e);
    assert(v@.subrange(0, v.len() as int) == v@);
    assert(v@.subrange(0, e as int) == trim_end(v@));
    assert(v@.subrange(b as int, e as int) == trim_end(v@).skip(b as int));
    string_of(&v, b, e)
}

/// `str::trim_end`.
pub fn trim_end_str(s: &str) -> (r: String)
    ensures
        r@ == trim_end(s@),
{
    let v = to_chars(s);
    let e = trim_end_at(&v, 0, v.len());
    assert(v@.subrange(0, v.len() as int) == v@);
    string_of(&v, 0, e)
}

/// First index of `c` in `v[lo..hi]`, or `hi`.
pub fn find_char(v: &Vec<char>, lo: usize, hi: usize, c: char) -> (i: usize)
    requires
        lo <= hi <= v.len(),
    ensures
        lo <= i <= hi,
        index_of(v@.subrange(lo as int, hi as int), c) == (if i < hi {
            i - lo
        } else {
            -1
        }),
{
    let mut i = lo;
    while i < hi && v[i] != c
        invariant
            lo <= i <= hi <= v.len(),
            forall|k: int| lo <= k < i ==> v@[k] != c,
        decreases hi - i,
    {
        i = i + 1;
    }
    proof {
        let s = v@.subrange(lo as int, hi as int);
        lemma_index_of_at(s, c, i - lo);
    }
    i
}

/// `str::lines`.
pub fn lines_of(s: &str) -> (r: Vec<String>)
    ensures
        views(r@) == lines(s@),
{
    let v = to_chars(s);
    let n = v.len();
    let mut out: Vec<String> = Vec::new();
    let mut pos: usize = 0;
    assert(v@.skip(0) == v@);
    while pos < n
        invariant
            n == v.len(),
            pos <= n,
            views(out@) + lines(v@.skip(pos as int)) == lines(v@),
        decreases n - pos,
    {
        let ghost rest = v@.skip(pos as int);
        let j = find_char(&v, pos, n, '\n');
        assert(v@.subrange(pos as int, n as int) == rest);
        if j < n {
            let e = if j > pos && v[j - 1] == '\r' {
                j - 1
            } else {
                j
            };
            let line = string_of(&v, pos, e);
            proof {
                let k = (j - pos) as int;
                assert(rest.take(k) == v@.subrange(pos as int, j as int));
                assert(strip_cr(rest.take(k)) == v@.subrange(pos as int, e as int));
                assert(rest.skip(k + 1) == v@.skip(j + 1));
                assert(lines(rest) == seq![line@] + lines(v@.skip(j + 1)));
                assert(views(out@.push(line)) == views(out@).push(line@));
            }
            out.push(line);
            pos = j + 1;
        } else {
            let line = string_of(&v, pos, n);
            proof {
                assert(lines(rest) == seq![line@]);
                assert(views(out@.push(line)) == views(out@).push(line@));
                assert(v@.skip(n as int).len() == 0);
            }
            out.push(line);
            pos = n;
        }
    }
    assert(v@.skip(n as int).len() == 0);
    assert(views(out@) + lines(v@.skip(n as int)) == views(out@));
    out
}

/// `str::split` on a single character.
pub fn split_on(s: &str, c: char) -> (r: Vec<String>)
    ensures
        views(r@) == split(s@, c),
        r@.len() >= 1,
{
    let v = to_chars(s);
    let n = v.len();
    let mut out: Vec<String> = Vec::new();
    let mut pos: usize = 0;
    assert(v@.skip(0) == v@);
    loop
        invariant
            n == v.len(),
            v@ == s@,
            pos <= n,
            views(out@) + split(v@.skip(pos as int), c) == split(v@, c),
        decreases n - pos,
    {
        let ghost rest = v@.skip(pos as int);
        let j = find_char(&v, pos, n, c);
        assert(v@.subrange(pos as int, n as int) == rest);
        if j < n {
            let piece = string_of(&v, pos, j);
            proof {
                let k = (j - pos) as int;
                assert(rest.take(k) == v@.subrange(pos as int, j as int));
                assert(rest.skip(k + 1) == v@.skip(j + 1));
                assert(split(rest, c) == seq![piece@] + split(v@.skip(j + 1), c));
                assert(views(out@.push(piece)) == views(out@).push(piece@));
            }
            out.push(piece);
            pos = j + 1;
        } else {
            let piece = string_of(&v, pos, n);
            let ghost before = views(out@);
            proof {
                assert(split(rest, c) == seq![piece@]);
                assert(views(out@.push(piece)) == views(out@).push(piece@));
                assert(before.push(piece@) == before + seq![piece@]);
            }
            out.push(piece);
            assert(views(out@) == split(v@, c));
            return out;
        }
    }
}

/// The strings of `parts` with `sep` between each two.
pub fn join_with(parts: &Vec<String>, sep: &str) -> (r: String)
    ensures
        r@ == join(views(parts@), sep@),
{
    let mut r = String::new();
    let mut i: usize = 0;
    while i < parts.len()
        invariant
            i <= parts.len(),
            r@ == join(views(parts@.take(i as int)), sep@),
        decreases parts.len() - i,
    {
        let ghost before = views(parts@.take(i as int));
        assert(views(parts@.take(i + 1)).drop_last() == before);
        assert(views(parts@.take(i + 1)).last() == parts@[i as int]@);
        if i > 0 {
            push_str(&mut r, sep);
        } else {
            assert(before.len() == 0);
        }
        push_str(&mut r, parts[i].as_str());
        i = i + 1;
    }
    assert(parts@.take(parts.len() as int) == parts@);
    r
}

/// The non-empty lines of `s`, trimmed.
pub fn non_empty_lines(s: &str) -> (r: Vec<String>)
    ensures
        views(r@) == trimmed_nonempty(lines(s@)),
{
    let ls = lines_of(s);
    let mut out: Vec<String> = Vec::new();
    let mut i: usize = 0;
    while i < ls.len()
        invariant
            i <= ls.len(),
            views(out@) == trimmed_nonempty(views(ls@).take(i as int)),
        decreases ls.len() - i,
    {
        let ghost before = views(out@);
        assert(views(ls@).take(i + 1).drop_last() == views(ls@).take(i as int));
        assert(views(ls@).take(i + 1).last() == ls@[i as int]@);
        let t = trim_str(ls[i].as_str());
        if !t.as_str().is_empty() {
            out.push(t);
            assert(views(out@) =~= before.push(trim(ls@[i as int]@)));
        }
        i = i + 1;
    }
    assert(views(ls@).take(ls.len() as int) == views(ls@));
    out
}

/// The lines of `s` that are not blank, without trailing whitespace.
pub fn end_trimmed_lines(s: &str) -> (r: Vec<String>)
    ensures
        views(r@) == end_trimmed_nonempty(lines(s@)),
{
    let ls = lines_of(s);
    let mut out: Vec<String> = Vec::new();
    let mut i: usize = 0;
    while i < ls.len()
        invariant
            i <= ls.len(),
            views(out@) == end_trimmed_nonempty(views(ls@).take(i as int)),
        decreases ls.len() - i,
    {
        let ghost before = views(out@);
        assert(views(ls@).take(i + 1).drop_last() == views(ls@).take(i as int));
        assert(views(ls@).take(i + 1).last() == ls@[i as int]@);
        let t = trim_end_str(ls[i].as_str());
        if !t.as_str().is_empty() {
            out.push(t);
            assert(views(out@) =~= before.push(trim_end(ls@[i as int]@)));
        }
        i = i + 1;
    }
    assert(views(ls@).take(ls.len() as int) == views(ls@));
    out
}

/// `str::strip_prefix`.
pub fn strip_prefix_str(s: &str, p: &str) -> (r: Option<String>)
    ensures
        opt_views(r) == strip_prefix(s@, p@),
{
    let v = to_chars(s);
    let w = to_chars(p);
    if w.len() <= v.len() && seq_eq(&v, 0, w.len(), &w, 0, w.len()) {
        assert(w@.subrange(0, w.len() as int) == w@);
        assert(v@.subrange(0, w.len() as int) == v@.take(w.len() as int));
        let r = string_of(&v, w.len(), v.len());
        assert(r@ == v@.skip(w.len() as int));
        Some(r)
    } else {
        assert(w@.subrange(0, w.len() as int) == w@);
        proof {
            if w.len() <= v.len() {
                assert(v@.subrange(0, w.len() as int) == v@.take(w.len() as int));
            }
        }
        None
    }
}

/// Whether `s` starts with `p`.
pub fn starts_with_str(s: &str, p: &str) -> (r: bool)
    ensures
        r == (strip_prefix(s@, p@) is Some),
{
    strip_prefix_str(s, p).is_some()
}

/// `str::contains` with a string needle.
pub fn contains_str(s: &str, needle: &str) -> (r: bool)
    ensures
        r == contains(s@, needle@),
{
    let v = to_chars(s);
    let w = to_chars(needle);
    if w.len() > v.len() {
        assert forall|i: int| 0 <= i && i + w@.len() <= v@.len() implies #[trigger] v@.subrange(
            i,
            i + w@.len(),
        ) != w@ by {}
        return false;
    }
    if w.len() == 0 {
        assert(v@.subrange(0, 0 + w@.len() as int) =~= w@);
        assert(contains(s@, needle@));
        return true;
    }
    let mut i: usize = 0;
    let m = v.len() - w.len();
    assert(w@.subrange(0, w.len() as int) == w@);
    while i <= m
        invariant
            0 < w.len() <= v.len(),
            m == v.len() - w.len(),
            v@ == s@,
            w@ == needle@,
            w@.subrange(0, w.len() as int) == w@,
            i <= m + 1,
            forall|j: int| 0 <= j < i ==> #[trigger] v@.subrange(j, j + w@.len()) != w@,
        decreases m + 1 - i,
    {
        if seq_eq(&v, i, i + w.len(), &w, 0, w.len()) {
            return true;
        }
        i = i + 1;
    }
    false
}

/// `str::trim_start_matches` with a char.
pub fn trim_start_char_str(s: &str, c: char) -> (r: String)
    ensures
        r@ == trim_start_char(s@, c),
{
    let v = to_chars(s);
    let mut b: usize = 0;
    assert(v@.skip(0) == v@);
    while b < v.len() && v[b] == c
        invariant
            b <= v.len(),
            trim_start_char(v@, c) == trim_start_char(v@.skip(b as int), c),
        decreases v.len() - b,
    {
        assert(v@.skip(b as int).drop_first() == v@.skip(b + 1));
        b = b + 1;
    }
    let r = string_of(&v, b, v.len());
    assert(r@ == v@.skip(b as int));
    r
}

/// `str::trim_end_matches` with a char.
pub fn trim_end_char_str(s: &str, c: char) -> (r: String)
    ensures
        r@ == trim_end_char(s@, c),
{
    let v = to_chars(s);
    let mut e: usize = v.len();
    assert(v@.take(v.len() as int) == v@);
    while e > 0 && v[e - 1] == c
        invariant
            e <= v.len(),
            trim_end_char(v@, c) == trim_end_char(v@.take(e as int), c),
        decreases e,
    {
        assert(v@.take(e as int).drop_last() == v@.take(e - 1));
        e = e - 1;
    }
    let r = string_of(&v, 0, e);
    assert(r@ == v@.take(e as int));
    r
}

proof fn lemma_digits_value_grows(s: Seq<char>, i: int)
    requires
        0 <= i <= s.len(),
    ensures
        digits_value(s) >= digits_value(s.take(i)),
    decreases s.len(),
{
    if i < s.len() {
        lemma_digits_value_grows(s.drop_last(), i);
        assert(s.drop_last().take(i) == s.take(i));
    } else {
        assert(s.take(i) == s);
    }
}

/// `str::parse::<usize>`.
pub fn parse_usize_str(s: &str) -> (r: Option<usize>)
    ensures
        r == parse_usize(s@),
{
    let v = to_chars(s);
    let start: usize = if v.len() > 0 && v[0] == '+' {
        1
    } else {
        0
    };
    let ghost d = v@.skip(start as int);
    assert(d == (if s@.len() > 0 && s@[0] == '+' {
        s@.drop_first()
    } else {
        s@
    }));
    if start == v.len() {
        return None;
    }
    let mut value: usize = 0;
    let mut i: usize = start;
    while i < v.len()
        invariant
            start <= i <= v.len(),
            v@ == s@,
            d == v@.skip(start as int),
            d == (if s@.len() > 0 && s@[0] == '+' {
                s@.drop_first()
            } else {
                s@
            }),
            all_digits(d.take(i - start)),
            value as nat == digits_value(d.take(i - start)),
        decreases v.len() - i,
    {
        let c = v[i];
        let ghost k = (i - start) as int;
        assert(d[k] == c);
        if !('0' <= c && c <= '9') {
            assert(!all_digits(d));
            return None;
        }
        let digit = (c as u32 - '0' as u32) as usize;
        assert(d.take(k + 1).drop_last() == d.take(k));
        assert(d.take(k + 1).last() == c);
        if value > (usize::MAX - digit) / 10 {
            proof {
                assert(digits_value(d.take(k + 1)) > usize::MAX) by (nonlinear_arith)
                    requires
                        value > (usize::MAX - digit) / 10,
                        digits_value(d.take(k + 1)) == value * 10 + digit,
                ;
                lemma_digits_value_grows(d, k + 1);
            }
            return None;
        }
        assert(value * 10 + digit <= usize::MAX) by (nonlinear_arith)
            requires
                value <= (usize::MAX - digit) / 10,
                digit <= 9,
        ;
        value = value * 10 + digit;
        assert(all_digits(d.take(k + 1))) by {
            assert forall|j: int| 0 <= j < k + 1 implies is_digit(#[trigger] d.take(k + 1)[j]) by {
                if j < k {
                    assert(d.take(k + 1)[j] == d.take(k)[j]);
                }
            }
        }
        i = i + 1;
    }
    assert(d.take(d.len() as int) == d);
    Some(value)
}

/// `n.to_string()`.
pub fn decimal_string(n: usize) -> (r: String)
    ensures
        r@ == decimal(n as nat),
    decreases n,
{
    let d = n % 10;
    let c: char = if d == 0 {
        '0'
    } else if d == 1 {
        '1'
    } else if d == 2 {
        '2'
    } else if d == 3 {
        '3'
    } else if d == 4 {
        '4'
    } else if d == 5 {
        '5'
    } else if d == 6 {
        '6'
    } else if d == 7 {
        '7'
    } else if d == 8 {
        '8'
    } else {
        '9'
    };
    if n < 10 {
        let mut r = String::new();
        push_char(&mut r, c);
        assert(r@ =~= seq![digit_char(n as nat)]);
        r
    } else {
        let mut r = decimal_string(n / 10);
        push_char(&mut r, c);
        r
    }
}

/// Appends `s` padded with spaces to `width` characters.
pub fn push_padded(out: &mut String, s: &str, width: usize)
    ensures
        final(out)@ == old(out)@ + pad(s@, width as nat),
{
    let v = to_chars(s);
    push_str(out, s);
    let ghost base = out@;
    let mut k = v.len();
    while k < width
        invariant
            v.len() <= k <= width || (v.len() >= width && k == v.len()),
            out@ == base + spaces((k - v.len()) as nat),
        decreases width - k,
    {
        push_char(out, ' ');
        assert(spaces((k + 1 - v.len()) as nat) =~= spaces((k - v.len()) as nat).push(' '));
        k = k + 1;
    }
    proof {
        if v.len() < width {
            assert(k == width);
        } else {
            assert(spaces(0) =~= Seq::<char>::empty());
        }
    }
}

/// The length of the longest string, in characters.
pub fn max_width(v: &Vec<String>) -> (r: usize)
    ensures
        r as nat == max_len(views(v@)),
{
    let mut m: usize = 0;
    let mut i: usize = 0;
    while i < v.len()
        invariant
            i <= v.len(),
            m as nat == max_len(views(v@).take(i as int)),
        decreases v.len() - i,
    {
        assert(views(v@).take(i + 1).drop_last() == views(v@).take(i as int));
        assert(views(v@).take(i + 1).last() == v@[i as int]@);
        let w = v[i].as_str().unicode_len();
        if w > m {
            m = w;
        }
        i = i + 1;
    }
    assert(views(v@).take(v.len() as int) == views(v@));
    m
}

pub open spec fn opt_views(o: Option<String>) -> Option<Seq<char>> {
    match o {
        Some(s) => Some(s@),
        None => None,
    }
}

} // verus!
