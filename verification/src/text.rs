//! Character-level text operations with their specifications.

use vstd::prelude::*;

verus! {

/// `String::push` appends one character to the end of a string.
pub assume_specification[ String::push ](s: &mut String, ch: char)
    ensures
        final(s)@ == old(s)@.push(ch),
;

/// The characters of `s`, in order.
pub fn chars_of(s: &str) -> (res: Vec<char>)
    ensures
        res@ == s@,
{
    let n = s.unicode_len();
    let mut res: Vec<char> = Vec::new();
    let mut i: usize = 0;
    while i < n
        invariant
            n == s@.len(),
            i <= n,
            res@ == s@.take(i as int),
        decreases n - i,
    {
        let c = s.get_char(i);
        res.push(c);
        assert(s@.take(i + 1) =~= s@.take(i as int).push(c));
        i = i + 1;
    }
    assert(s@.take(n as int) =~= s@);
    res
}

/// A string made of the characters of `cs`, in order.
pub fn string_of(cs: &Vec<char>) -> (res: String)
    ensures
        res@ == cs@,
{
    let mut res = String::new();
    let mut i: usize = 0;
    while i < cs.len()
        invariant
            i <= cs@.len(),
            res@ == cs@.take(i as int),
        decreases cs@.len() - i,
    {
        res.push(cs[i]);
        assert(cs@.take(i + 1) =~= cs@.take(i as int).push(cs@[i as int]));
        i = i + 1;
    }
    assert(cs@.take(cs@.len() as int) =~= cs@);
    res
}

} // verus!

verus! {

/// The first `n` characters of `s`, or all of `s` when it is shorter.
pub open spec fn first_chars(s: Seq<char>, n: int) -> Seq<char> {
    if s.len() < n {
        s
    } else {
        s.take(n)
    }
}

/// The first `n` characters of `cs`, or all of them when there are fewer.
pub fn take_chars(cs: &Vec<char>, n: usize) -> (res: Vec<char>)
    ensures
        res@ == first_chars(cs@, n as int),
{
    let m: usize = if cs.len() < n {
        cs.len()
    } else {
        n
    };
    let mut out: Vec<char> = Vec::new();
    let mut i: usize = 0;
    while i < m
        invariant
            m <= cs@.len(),
            m == if cs@.len() < n { cs@.len() } else { n as nat },
            i <= m,
            out@ =~= cs@.take(i as int),
        decreases m - i,
    {
        out.push(cs[i]);
        assert(cs@.take(i + 1) =~= cs@.take(i as int).push(cs@[i as int]));
        i = i + 1;
    }
    assert(cs@.take(cs@.len() as int) =~= cs@);
    out
}

/// Whether `a` and `b` hold the same characters.
pub fn str_equals(a: &str, b: &str) -> (res: bool)
    ensures
        res == (a@ == b@),
{
    let x = chars_of(a);
    let y = chars_of(b);
    if x.len() != y.len() {
        return false;
    }
    let mut i: usize = 0;
    while i < x.len()
        invariant
            x@ == a@,
            y@ == b@,
            x@.len() == y@.len(),
            i <= x@.len(),
            forall|j: int| 0 <= j < i ==> x@[j] == y@[j],
        decreases x@.len() - i,
    {
        if x[i] != y[i] {
            return false;
        }
        i = i + 1;
    }
    assert(x@ =~= y@);
    true
}

} // verus!

verus! {

/// Whether `c` is white space in the sense of Unicode's `White_Space`
/// property, which is what `char::is_whitespace` and `str::trim` use.
pub open spec fn is_white_space(c: char) -> bool {
    ||| ('\u{9}' <= c && c <= '\u{d}')
    ||| c == ' '
    ||| c == '\u{85}'
    ||| c == '\u{a0}'
    ||| c == '\u{1680}'
    ||| ('\u{2000}' <= c && c <= '\u{200a}')
    ||| c == '\u{2028}'
    ||| c == '\u{2029}'
    ||| c == '\u{202f}'
    ||| c == '\u{205f}'
    ||| c == '\u{3000}'
}

/// Whether `c` is white space.
pub fn is_whitespace(c: char) -> (res: bool)
    ensures
        res == is_white_space(c),
{
    ('\u{9}' <= c && c <= '\u{d}') || c == ' ' || c == '\u{85}' || c == '\u{a0}' || c
        == '\u{1680}' || ('\u{2000}' <= c && c <= '\u{200a}') || c == '\u{2028}' || c
        == '\u{2029}' || c == '\u{202f}' || c == '\u{205f}' || c == '\u{3000}'
}

/// `s` without the white space it starts with.
pub open spec fn trim_start(s: Seq<char>) -> Seq<char>
    decreases s.len(),
{
    if s.len() > 0 && is_white_space(s[0]) {
        trim_start(s.drop_first())
    } else {
        s
    }
}

/// `s` without the white space it ends with.
pub open spec fn trim_end(s: Seq<char>) -> Seq<char>
    decreases s.len(),
{
    if s.len() > 0 && is_white_space(s.last()) {
        trim_end(s.drop_last())
    } else {
        s
    }
}

/// `s` without white space at either end, as `str::trim` gives it.
pub open spec fn trimmed(s: Seq<char>) -> Seq<char> {
    trim_end(trim_start(s))
}

/// The characters of `cs` without white space at either end.
pub fn trim_chars(cs: &Vec<char>) -> (res: Vec<char>)
    ensures
        res@ == trimmed(cs@),
{
    let n = cs.len();
    let mut a: usize = 0;
    assert(cs@.skip(0) =~= cs@);
    while a < n && is_whitespace(cs[a])
        invariant
            n == cs@.len(),
            a <= n,
            trim_start(cs@.skip(a as int)) == trim_start(cs@),
        decreases n - a,
    {
        assert(cs@.skip(a as int).drop_first() =~= cs@.skip(a + 1));
        a = a + 1;
    }
    let ghost front = cs@.skip(a as int);
    assert(trim_start(front) == front);
    let mut b: usize = n;
    assert(front.take((b - a) as int) =~= front);
    while b > a && is_whitespace(cs[b - 1])
        invariant
            n == cs@.len(),
            a <= b <= n,
            front == cs@.skip(a as int),
            trim_end(front.take((b - a) as int)) == trim_end(front),
        decreases b - a,
    {
        assert(front.take((b - a) as int).drop_last() =~= front.take((b - 1 - a) as int));
        b = b - 1;
    }
    let mut out: Vec<char> = Vec::new();
    let mut k: usize = a;
    while k < b
        invariant
            n == cs@.len(),
            a <= k <= b <= n,
            out@ =~= cs@.subrange(a as int, k as int),
        decreases b - k,
    {
        out.push(cs[k]);
        k = k + 1;
    }
    assert(out@ =~= front.take((b - a) as int));
    out
}

/// `c` in lower case when it is an ASCII capital letter, `c` otherwise.
pub open spec fn ascii_lower(c: char) -> char {
    if 'A' <= c && c <= 'Z' {
        ((c as u8) + 32) as char
    } else {
        c
    }
}

/// `c` in upper case when it is an ASCII small letter, `c` otherwise.
pub open spec fn ascii_upper(c: char) -> char {
    if 'a' <= c && c <= 'z' {
        ((c as u8) - 32) as char
    } else {
        c
    }
}

/// `s` with its ASCII capital letters in lower case.
pub open spec fn ascii_lowercase(s: Seq<char>) -> Seq<char> {
    s.map_values(|c: char| ascii_lower(c))
}

/// `s` with its ASCII small letters in upper case.
pub open spec fn ascii_uppercase(s: Seq<char>) -> Seq<char> {
    s.map_values(|c: char| ascii_upper(c))
}

/// `cs` with its ASCII capital letters in lower case.
pub fn to_ascii_lowercase(cs: &Vec<char>) -> (res: Vec<char>)
    ensures
        res@ == ascii_lowercase(cs@),
{
    let mut out: Vec<char> = Vec::new();
    let mut i: usize = 0;
    while i < cs.len()
        invariant
            i <= cs@.len(),
            out@ =~= ascii_lowercase(cs@.take(i as int)),
        decreases cs@.len() - i,
    {
        let c = cs[i];
        let d = if 'A' <= c && c <= 'Z' {
            ((c as u8) + 32) as char
        } else {
            c
        };
        out.push(d);
        assert(cs@.take(i + 1) =~= cs@.take(i as int).push(c));
        i = i + 1;
    }
    assert(cs@.take(cs@.len() as int) =~= cs@);
    out
}

/// `cs` with its ASCII small letters in upper case.
pub fn to_ascii_uppercase(cs: &Vec<char>) -> (res: Vec<char>)
    ensures
        res@ == ascii_uppercase(cs@),
{
    let mut out: Vec<char> = Vec::new();
    let mut i: usize = 0;
    while i < cs.len()
        invariant
            i <= cs@.len(),
            out@ =~= ascii_uppercase(cs@.take(i as int)),
        decreases cs@.len() - i,
    {
        let c = cs[i];
        let d = if 'a' <= c && c <= 'z' {
            ((c as u8) - 32) as char
        } else {
            c
        };
        out.push(d);
        assert(cs@.take(i + 1) =~= cs@.take(i as int).push(c));
        i = i + 1;
    }
    assert(cs@.take(cs@.len() as int) =~= cs@);
    out
}

} // verus!

verus! {

/// The decimal digit `d`, for `d` below ten.
pub open spec fn digit_char(d: int) -> char {
    seq!['0', '1', '2', '3', '4', '5', '6', '7', '8', '9'][d]
}

/// `n` written in decimal, without leading zeros.
pub open spec fn decimal(n: nat) -> Seq<char>
    decreases n,
{
    if n < 10 {
        seq![digit_char(n as int)]
    } else {
        decimal(n / 10).push(digit_char((n % 10) as int))
    }
}

/// `n` written in decimal, with a minus sign in front when it is negative.
pub open spec fn signed_decimal(n: int) -> Seq<char> {
    if n < 0 {
        seq!['-'] + decimal((-n) as nat)
    } else {
        decimal(n as nat)
    }
}

/// `n` written with at least two digits, a zero in front when it is below ten.
pub open spec fn two_digits(n: nat) -> Seq<char> {
    if n < 10 {
        seq!['0'] + decimal(n)
    } else {
        decimal(n)
    }
}

fn digit(d: u64) -> (c: char)
    requires
        d < 10,
    ensures
        c == digit_char(d as int),
{
    match d {
        0 => '0',
        1 => '1',
        2 => '2',
        3 => '3',
        4 => '4',
        5 => '5',
        6 => '6',
        7 => '7',
        8 => '8',
        _ => '9',
    }
}

/// `n` written in decimal.
pub fn decimal_string(n: u64) -> (res: String)
    ensures
        res@ == decimal(n as nat),
    decreases n,
{
    if n < 10 {
        let mut s = String::new();
        s.push(digit(n));
        assert(s@ =~= decimal(n as nat));
        s
    } else {
        let mut s = decimal_string(n / 10);
        s.push(digit(n % 10));
        s
    }
}

/// `n` written in decimal, with a minus sign when it is negative.
pub fn signed_decimal_string(n: i32) -> (res: String)
    ensures
        res@ == signed_decimal(n as int),
{
    if n < 0 {
        let m: i64 = n as i64;
        let magnitude: u64 = (-m) as u64;
        let mut s = String::new();
        s.push('-');
        let digits = decimal_string(magnitude);
        s.append(digits.as_str());
        assert(s@ =~= signed_decimal(n as int));
        s
    } else {
        decimal_string(n as u64)
    }
}

/// `n` written with at least two digits.
pub fn two_digit_string(n: u32) -> (res: String)
    ensures
        res@ == two_digits(n as nat),
{
    if n < 10 {
        let mut s = String::new();
        s.push('0');
        let digits = decimal_string(n as u64);
        s.append(digits.as_str());
        assert(s@ =~= two_digits(n as nat));
        s
    } else {
        decimal_string(n as u64)
    }
}

/// Whether `needle` occurs in `hay` starting at position `i`.
pub open spec fn occurs_at(hay: Seq<char>, needle: Seq<char>, i: int) -> bool {
    0 <= i && i + needle.len() <= hay.len() && hay.subrange(i, i + needle.len()) == needle
}

/// Whether `needle` occurs somewhere in `hay`; the empty text occurs in
/// every text.
pub open spec fn contains_text(hay: Seq<char>, needle: Seq<char>) -> bool {
    exists|i: int| occurs_at(hay, needle, i)
}

fn matches_at(h: &Vec<char>, k: &Vec<char>, i: usize) -> (res: bool)
    requires
        i + k@.len() <= h@.len(),
    ensures
        res == occurs_at(h@, k@, i as int),
{
    let hl = h.len();
    let mut j: usize = 0;
    while j < k.len()
        invariant
            hl == h@.len(),
            i + k@.len() <= h@.len(),
            j <= k@.len(),
            forall|q: int| 0 <= q < j ==> h@[i + q] == k@[q],
        decreases k@.len() - j,
    {
        if h[i + j] != k[j] {
            assert(h@.subrange(i as int, i + k@.len())[j as int] != k@[j as int]);
            return false;
        }
        j = j + 1;
    }
    assert(h@.subrange(i as int, i + k@.len()) =~= k@);
    true
}

/// Whether `needle` occurs in `hay`, as `str::contains` answers it.
pub fn contains(hay: &str, needle: &str) -> (res: bool)
    ensures
        res == contains_text(hay@, needle@),
{
    let h = chars_of(hay);
    let k = chars_of(needle);
    if k.len() > h.len() {
        assert forall|i: int| !occurs_at(hay@, needle@, i) by {}
        return false;
    }
    let last = h.len() - k.len();
    let mut i: usize = 0;
    loop
        invariant
            h@ == hay@,
            k@ == needle@,
            last == h@.len() - k@.len(),
            i <= last,
            forall|p: int| 0 <= p < i ==> !occurs_at(hay@, needle@, p),
        decreases last - i,
    {
        if matches_at(&h, &k, i) {
            return true;
        }
        if i == last {
            assert forall|p: int| !occurs_at(hay@, needle@, p) by {
                if 0 <= p < i {
                } else if p == i {
                } else {
                }
            }
            return false;
        }
        i = i + 1;
    }
}

} // verus!

verus! {

/// `line` without the carriage return it ends with, if any.
pub open spec fn strip_carriage_return(line: Seq<char>) -> Seq<char> {
    if line.len() > 0 && line.last() == '\r' {
        line.drop_last()
    } else {
        line
    }
}

/// Reading `s` from the start: the lines already ended by a line feed, each
/// without its `\n` or `\r\n` ending, and the text read since the last line
/// feed.
pub open spec fn line_scan(s: Seq<char>) -> (Seq<Seq<char>>, Seq<char>)
    decreases s.len(),
{
    if s.len() == 0 {
        (seq![], seq![])
    } else {
        let (done, cur) = line_scan(s.drop_last());
        if s.last() == '\n' {
            (done.push(strip_carriage_return(cur)), seq![])
        } else {
            (done, cur.push(s.last()))
        }
    }
}

/// The lines of `s`, as `str::lines` gives them: split at each `\n`, a `\r`
/// just before the `\n` dropped, and no empty line after a final line feed.
pub open spec fn lines_of(s: Seq<char>) -> Seq<Seq<char>> {
    let (done, cur) = line_scan(s);
    if cur.len() == 0 {
        done
    } else {
        done.push(cur)
    }
}

fn strip_cr(line: Vec<char>) -> (res: Vec<char>)
    ensures
        res@ == strip_carriage_return(line@),
{
    let mut line = line;
    if line.len() > 0 && line[line.len() - 1] == '\r' {
        line.pop();
    }
    line
}

/// The lines of `cs`.
pub fn split_lines(cs: &Vec<char>) -> (res: Vec<Vec<char>>)
    ensures
        res@.map_values(|l: Vec<char>| l@) == lines_of(cs@),
{
    let mut done: Vec<Vec<char>> = Vec::new();
    let mut cur: Vec<char> = Vec::new();
    let mut i: usize = 0;
    while i < cs.len()
        invariant
            i <= cs@.len(),
            (done@.map_values(|l: Vec<char>| l@), cur@) == line_scan(cs@.take(i as int)),
        decreases cs@.len() - i,
    {
        let c = cs[i];
        assert(cs@.take(i + 1).drop_last() =~= cs@.take(i as int));
        let ghost before = done@.map_values(|l: Vec<char>| l@);
        if c == '\n' {
            let line = strip_cr(cur);
            done.push(line);
            cur = Vec::new();
            assert(done@.map_values(|l: Vec<char>| l@) =~= before.push(line@));
        } else {
            cur.push(c);
            assert(done@.map_values(|l: Vec<char>| l@) =~= before);
        }
        i = i + 1;
    }
    assert(cs@.take(cs@.len() as int) =~= cs@);
    if cur.len() > 0 {
        let ghost before = done@.map_values(|l: Vec<char>| l@);
        done.push(cur);
        assert(done@.map_values(|l: Vec<char>| l@) =~= before.push(cur@));
    }
    done
}

} // verus!

verus! {

/// Cutting leading white space from `s` cuts exactly its first `k`
/// characters, where `k` is the position of its first character that is not
/// white space (the length of `s` when there is none).
pub proof fn lemma_trim_start_cut(s: Seq<char>) -> (k: int)
    ensures
        0 <= k <= s.len(),
        forall|j: int| 0 <= j < k ==> is_white_space(#[trigger] s[j]),
        k < s.len() ==> !is_white_space(s[k]),
        trim_start(s) == s.skip(k),
    decreases s.len(),
{
    if s.len() > 0 && is_white_space(s[0]) {
        let k1 = lemma_trim_start_cut(s.drop_first());
        assert forall|j: int| 0 <= j < k1 + 1 implies is_white_space(#[trigger] s[j]) by {
            if j > 0 {
                assert(s[j] == s.drop_first()[j - 1]);
            }
        }
        if k1 < s.drop_first().len() {
            assert(s[k1 + 1] == s.drop_first()[k1]);
        }
        assert(s.drop_first().skip(k1) =~= s.skip(k1 + 1));
        k1 + 1
    } else {
        assert(s.skip(0) =~= s);
        0
    }
}

/// Cutting trailing white space from `s` keeps exactly its first `m`
/// characters, where `m` is one past its last character that is not white
/// space (zero when there is none).
pub proof fn lemma_trim_end_cut(s: Seq<char>) -> (m: int)
    ensures
        0 <= m <= s.len(),
        forall|j: int| m <= j < s.len() ==> is_white_space(#[trigger] s[j]),
        m > 0 ==> !is_white_space(s[m - 1]),
        trim_end(s) == s.take(m),
    decreases s.len(),
{
    if s.len() > 0 && is_white_space(s.last()) {
        let m1 = lemma_trim_end_cut(s.drop_last());
        assert forall|j: int| m1 <= j < s.len() implies is_white_space(#[trigger] s[j]) by {
            if j < s.len() - 1 {
                assert(s[j] == s.drop_last()[j]);
            }
        }
        if m1 > 0 {
            assert(s[m1 - 1] == s.drop_last()[m1 - 1]);
        }
        assert(s.drop_last().take(m1) =~= s.take(m1));
        m1
    } else {
        assert(s.take(s.len() as int) =~= s);
        s.len() as int
    }
}

/// Trimming leaves text exactly when `s` holds a character that is not
/// white space; then the trimmed text starts with the first such character
/// of `s` and ends with the last one, and it is the text between them.
pub proof fn lemma_trimmed_spans_visible_text(s: Seq<char>)
    ensures
        trimmed(s).len() > 0 <==> exists|i: int| 0 <= i < s.len() && !is_white_space(#[trigger] s[i]),
        forall|i: int|
            0 <= i < s.len() && !is_white_space(s[i]) && (forall|j: int|
                0 <= j < i ==> is_white_space(#[trigger] s[j])) ==> trimmed(s)[0] == #[trigger] s[i]
                && trimmed(s) == s.subrange(i, i + trimmed(s).len()),
{
    let k = lemma_trim_start_cut(s);
    let t = s.skip(k);
    let m = lemma_trim_end_cut(t);
    if k < s.len() {
        assert(t[0] == s[k]);
        if m == 0 {
            assert(is_white_space(t[0]));
        }
        assert(trimmed(s).len() > 0);
        assert forall|i: int|
            0 <= i < s.len() && !is_white_space(s[i]) && (forall|j: int|
                0 <= j < i ==> is_white_space(#[trigger] s[j])) implies trimmed(s)[0] == #[trigger] s[i]
            && trimmed(s) == s.subrange(i, i + trimmed(s).len()) by {
            if i < k {
            } else if i > k {
                assert(is_white_space(s[k]));
            }
            assert(trimmed(s) =~= s.subrange(k, k + m));
        }
    } else {
        assert(t.len() == 0);
        assert(trimmed(s).len() == 0);
        assert forall|i: int| 0 <= i < s.len() implies is_white_space(#[trigger] s[i]) by {}
    }
}

} // verus!

verus! {

/// The trimmed text of `s` runs from its first character that is not white
/// space, `i`, to its last one, `j`.
pub proof fn lemma_trimmed_is_between_visible_ends(s: Seq<char>, i: int, j: int)
    requires
        0 <= i <= j < s.len(),
        !is_white_space(s[i]),
        !is_white_space(s[j]),
        forall|k: int| 0 <= k < i ==> is_white_space(#[trigger] s[k]),
        forall|k: int| j < k < s.len() ==> is_white_space(#[trigger] s[k]),
    ensures
        trimmed(s) == s.subrange(i, j + 1),
{
    let k = lemma_trim_start_cut(s);
    if k < i {
    } else if k > i {
        assert(is_white_space(s[i]));
    }
    let t = s.skip(i);
    let m = lemma_trim_end_cut(t);
    assert(t[j - i] == s[j]);
    if m < j - i + 1 {
        assert(is_white_space(t[j - i]));
    } else if m > j - i + 1 {
        assert(t[m - 1] == s[i + m - 1]);
        assert(is_white_space(s[i + m - 1]));
    }
    assert(t.take(m) =~= s.subrange(i, j + 1));
}

/// ASCII lower-casing changes only the capitals `A` to `Z`, each into its
/// small letter; ASCII upper-casing changes only `a` to `z`, each into its
/// capital. Neither changes white space or any other character.
pub proof fn lemma_ascii_case_maps(c: char)
    ensures
        ('A' <= c && c <= 'Z') ==> ascii_lower(c) as u32 == c as u32 + 32,
        !('A' <= c && c <= 'Z') ==> ascii_lower(c) == c,
        ('a' <= c && c <= 'z') ==> ascii_upper(c) as u32 == c as u32 - 32,
        !('a' <= c && c <= 'z') ==> ascii_upper(c) == c,
{
}

} // verus!

verus! {

proof fn lemma_line_scan_without_line_feed(a: Seq<char>)
    requires
        !a.contains('\n'),
    ensures
        line_scan(a) == (Seq::<Seq<char>>::empty(), a),
    decreases a.len(),
{
    if a.len() > 0 {
        assert(!a.drop_last().contains('\n')) by {
            if a.drop_last().contains('\n') {
                let i = choose|i: int| 0 <= i < a.drop_last().len() && a.drop_last()[i] == '\n';
                assert(a[i] == '\n');
            }
        }
        lemma_line_scan_without_line_feed(a.drop_last());
        assert(a[a.len() - 1] == a.last());
        assert(a.drop_last().push(a.last()) =~= a);
    } else {
        assert(a =~= Seq::<char>::empty());
    }
}

proof fn lemma_line_scan_after_line_feed(a: Seq<char>, b: Seq<char>)
    requires
        !a.contains('\n'),
    ensures
        line_scan(a + seq!['\n'] + b) == (
            seq![strip_carriage_return(a)] + line_scan(b).0,
            line_scan(b).1,
        ),
    decreases b.len(),
{
    if b.len() == 0 {
        lemma_line_scan_without_line_feed(a);
        assert(a + seq!['\n'] + b =~= a + seq!['\n']);
        assert((a + seq!['\n']).drop_last() =~= a);
        assert(seq![strip_carriage_return(a)] + Seq::<Seq<char>>::empty() =~= seq![
            strip_carriage_return(a),
        ]);
    } else {
        lemma_line_scan_after_line_feed(a, b.drop_last());
        assert((a + seq!['\n'] + b).drop_last() =~= a + seq!['\n'] + b.drop_last());
        assert((a + seq!['\n'] + b).last() == b.last());
        let (db, cb) = line_scan(b.drop_last());
        assert(seq![strip_carriage_return(a)] + db.push(strip_carriage_return(cb)) =~= (seq![
            strip_carriage_return(a),
        ] + db).push(strip_carriage_return(cb)));
    }
}

/// How text is cut into lines: text without a line feed is one line (none
/// when it is empty), and text with a line feed is the line before the
/// first line feed, without a `\r` just before it, followed by the lines of
/// the text after it. Hence every line feed ends a line, no line holds a
/// line feed, and a final line feed adds no empty line.
pub proof fn lemma_lines_split_at_line_feeds(a: Seq<char>, b: Seq<char>)
    requires
        !a.contains('\n'),
    ensures
        lines_of(a) == if a.len() == 0 {
            Seq::<Seq<char>>::empty()
        } else {
            seq![a]
        },
        lines_of(a + seq!['\n'] + b) == seq![
            if a.len() > 0 && a.last() == '\r' {
                a.drop_last()
            } else {
                a
            },
        ] + lines_of(b),
{
    lemma_line_scan_without_line_feed(a);
    lemma_line_scan_after_line_feed(a, b);
    let (db, cb) = line_scan(b);
    let head = seq![strip_carriage_return(a)];
    if cb.len() > 0 {
        assert((head + db).push(cb) =~= head + db.push(cb));
    }
    if a.len() > 0 {
        assert(Seq::<Seq<char>>::empty().push(a) =~= seq![a]);
    }
}

} // verus!
