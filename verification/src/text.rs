//! Character-level text handling shared by the parsers and formatters.

use vstd::prelude::*;

verus! {

/// Unicode `White_Space` property, the set that `char::is_whitespace` and
/// `str::trim` use.
pub open spec fn is_white_space(c: char) -> bool {
    let n = c as u32;
    ||| 9 <= n <= 13
    ||| n == 32
    ||| n == 0x85
    ||| n == 0xA0
    ||| n == 0x1680
    ||| 0x2000 <= n <= 0x200A
    ||| n == 0x2028
    ||| n == 0x2029
    ||| n == 0x202F
    ||| n == 0x205F
    ||| n == 0x3000
}

pub fn is_whitespace(c: char) -> (b: bool)
    ensures
        b == is_white_space(c),
{
    let n: u32 = c as u32;
    (9 <= n && n <= 13) || n == 32 || n == 0x85 || n == 0xA0 || n == 0x1680 || (0x2000 <= n
        && n <= 0x200A) || n == 0x2028 || n == 0x2029 || n == 0x202F || n == 0x205F || n == 0x3000
}

/// `String::push`: appends one character.
#[verifier::external_body]
fn push_char(s: &mut String, c: char)
    ensures
        final(s)@ == old(s)@.push(c),
{
    s.push(c);
}

/// The characters of a string slice, in order.
pub fn chars_of(s: &str) -> (v: Vec<char>)
    ensures
        v@ == s@,
{
    let mut v: Vec<char> = Vec::new();
    for c in it: s.chars()
        invariant
            it.seq() == s@,
            v@ == it.seq().take(it.index() as int),
    {
        v.push(c);
    }
    v
}

/// A `String` holding the given characters.
pub fn string_of(v: &Vec<char>) -> (s: String)
    ensures
        s@ == v@,
{
    let mut s = String::new();
    for i in 0..v.len()
        invariant
            s@ == v@.take(i as int),
    {
        push_char(&mut s, v[i]);
        assert(v@.take(i + 1) == v@.take(i as int).push(v@[i as int]));
    }
    assert(v@.take(v.len() as int) == v@);
    s
}


/// A copy of `v[lo..hi]`.
pub fn slice_of(v: &Vec<char>, lo: usize, hi: usize) -> (r: Vec<char>)
    requires
        lo <= hi <= v.len(),
    ensures
        r@ == v@.subrange(lo as int, hi as int),
{
    let mut r: Vec<char> = Vec::new();
    let mut i = lo;
    while i < hi
        invariant
            lo <= i <= hi <= v.len(),
            r@ == v@.subrange(lo as int, i as int),
        decreases hi - i,
    {
        r.push(v[i]);
        assert(v@.subrange(lo as int, i + 1) == v@.subrange(lo as int, i as int).push(v@[i as int]));
        i = i + 1;
    }
    r
}

// ---------------------------------------------------------------------------
// Trimming

/// `s` without its leading white space.
pub open spec fn trim_start(s: Seq<char>) -> Seq<char>
    decreases s.len(),
{
    if s.len() > 0 && is_white_space(s[0]) {
        trim_start(s.drop_first())
    } else {
        s
    }
}

/// `s` without its trailing white space.
pub open spec fn trim_end(s: Seq<char>) -> Seq<char>
    decreases s.len(),
{
    if s.len() > 0 && is_white_space(s.last()) {
        trim_end(s.drop_last())
    } else {
        s
    }
}

/// `s` without leading and trailing white space, as `str::trim` gives it.
pub open spec fn trim(s: Seq<char>) -> Seq<char> {
    trim_end(trim_start(s))
}

proof fn lemma_trim_start_skip(s: Seq<char>, i: int)
    requires
        0 <= i <= s.len(),
        forall|k: int| 0 <= k < i ==> is_white_space(#[trigger] s[k]),
    ensures
        trim_start(s) == trim_start(s.skip(i)),
    decreases i,
{
    if i > 0 {
        assert(s.drop_first().skip(i - 1) == s.skip(i));
        assert forall|k: int| 0 <= k < i - 1 implies is_white_space(#[trigger] s.drop_first()[k]) by {
            assert(s.drop_first()[k] == s[k + 1]);
        }
        lemma_trim_start_skip(s.drop_first(), i - 1);
    } else {
        assert(s.skip(0) == s);
    }
}

proof fn lemma_trim_end_take(s: Seq<char>, j: int)
    requires
        0 <= j <= s.len(),
        forall|k: int| j <= k < s.len() ==> is_white_space(#[trigger] s[k]),
    ensures
        trim_end(s) == trim_end(s.take(j)),
    decreases s.len() - j,
{
    if j < s.len() {
        assert(s.drop_last().take(j) == s.take(j));
        assert forall|k: int| j <= k < s.drop_last().len() implies is_white_space(
            #[trigger] s.drop_last()[k],
        ) by {
            assert(s.drop_last()[k] == s[k]);
        }
        lemma_trim_end_take(s.drop_last(), j);
    } else {
        assert(s.take(j) == s);
    }
}

/// The characters of `v` without leading and trailing white space.
pub fn trim_chars(v: &Vec<char>) -> (r: Vec<char>)
    ensures
        r@ == trim(v@),
{
    let n = v.len();
    let mut i: usize = 0;
    while i < n && is_whitespace(v[i])
        invariant
            i <= n == v.len(),
            forall|k: int| 0 <= k < i ==> is_white_space(#[trigger] v@[k]),
        decreases n - i,
    {
        i = i + 1;
    }
    proof {
        lemma_trim_start_skip(v@, i as int);
    }
    let ghost t = v@.skip(i as int);
    assert(trim_start(v@) == t);
    let mut j: usize = n;
    while j > i && is_whitespace(v[j - 1])
        invariant
            i <= j <= n == v.len(),
            t == v@.skip(i as int),
            forall|k: int| j - i <= k < t.len() ==> is_white_space(#[trigger] t[k]),
        decreases j,
    {
        j = j - 1;
    }
    proof {
        lemma_trim_end_take(t, j - i);
        assert(t.take(j - i) == v@.subrange(i as int, j as int));
    }
    slice_of(v, i, j)
}

// ---------------------------------------------------------------------------
// Splitting

/// The separators that the formats of this crate split on.
#[derive(Clone, Copy, PartialEq, Eq, Structural)]
pub enum Sep {
    /// `'\n'`, as `str::lines` splits (a `'\r'` before it stays in the line)
    Newline,
    /// `','`
    Comma,
    /// `'/'`
    Slash,
    /// `','` or `' '`
    CommaOrSpace,
    /// any white space character
    WhiteSpace,
    /// `'x'`
    LetterX,
}

pub open spec fn is_sep(k: Sep, c: char) -> bool {
    match k {
        Sep::Newline => c == '\n',
        Sep::Comma => c == ',',
        Sep::Slash => c == '/',
        Sep::CommaOrSpace => c == ',' || c == ' ',
        Sep::WhiteSpace => is_white_space(c),
        Sep::LetterX => c == 'x',
    }
}

pub fn sep_matches(k: Sep, c: char) -> (b: bool)
    ensures
        b == is_sep(k, c),
{
    match k {
        Sep::Newline => c == '\n',
        Sep::Comma => c == ',',
        Sep::Slash => c == '/',
        Sep::CommaOrSpace => c == ',' || c == ' ',
        Sep::WhiteSpace => is_whitespace(c),
        Sep::LetterX => c == 'x',
    }
}

/// The pieces of `s` between separators, as `str::split` gives them: one
/// more piece than there are separators, empty pieces included.
pub open spec fn split(s: Seq<char>, k: Sep) -> Seq<Seq<char>>
    decreases s.len(),
{
    if s.len() == 0 {
        seq![Seq::<char>::empty()]
    } else {
        let r = split(s.drop_last(), k);
        if is_sep(k, s.last()) {
            r.push(Seq::<char>::empty())
        } else {
            r.update(r.len() - 1, r.last().push(s.last()))
        }
    }
}

pub proof fn lemma_split_len(s: Seq<char>, k: Sep)
    ensures
        split(s, k).len() >= 1,
    decreases s.len(),
{
    if s.len() > 0 {
        lemma_split_len(s.drop_last(), k);
    }
}

/// Text without a separator is a single piece.
pub proof fn lemma_split_no_sep(x: Seq<char>, k: Sep)
    requires
        forall|i: int| 0 <= i < x.len() ==> !is_sep(k, #[trigger] x[i]),
    ensures
        split(x, k) == seq![x],
    decreases x.len(),
{
    if x.len() > 0 {
        assert forall|i: int| 0 <= i < x.drop_last().len() implies !is_sep(
            k,
            #[trigger] x.drop_last()[i],
        ) by {
            assert(x.drop_last()[i] == x[i]);
        }
        lemma_split_no_sep(x.drop_last(), k);
        assert(x.drop_last().push(x.last()) == x);
        assert(split(x, k) =~= seq![x]);
    } else {
        assert(x =~= Seq::<char>::empty());
    }
}

/// Splitting text joined by a separator splits each side.
pub proof fn lemma_split_concat(a: Seq<char>, c: char, b: Seq<char>, k: Sep)
    requires
        is_sep(k, c),
    ensures
        split(a + seq![c] + b, k) == split(a, k) + split(b, k),
    decreases b.len(),
{
    let s = a + seq![c] + b;
    if b.len() == 0 {
        assert(s.drop_last() =~= a);
        assert(split(a, k) + split(b, k) =~= split(a, k).push(Seq::<char>::empty()));
    } else {
        lemma_split_concat(a, c, b.drop_last(), k);
        lemma_split_len(b.drop_last(), k);
        assert(s.drop_last() =~= a + seq![c] + b.drop_last());
        assert(s.last() == b.last());
        let r1 = split(a, k);
        let r2 = split(b.drop_last(), k);
        if is_sep(k, b.last()) {
            assert(split(s, k) =~= split(a, k) + split(b, k));
        } else {
            assert((r1 + r2).update((r1 + r2).len() - 1, (r1 + r2).last().push(b.last())) =~= r1
                + r2.update(r2.len() - 1, r2.last().push(b.last())));
        }
    }
}

/// Text that begins and ends with a character other than white space is its
/// own trim.
pub proof fn lemma_trim_unchanged(s: Seq<char>)
    requires
        s.len() > 0,
        !is_white_space(s[0]),
        !is_white_space(s.last()),
    ensures
        trim(s) == s,
{
}

/// Text without white space is its own trim.
pub proof fn lemma_trim_no_ws(s: Seq<char>)
    requires
        forall|i: int| 0 <= i < s.len() ==> !is_white_space(#[trigger] s[i]),
    ensures
        trim(s) == s,
{
    if s.len() > 0 {
        assert(!is_white_space(s[0]));
        assert(!is_white_space(s[s.len() - 1]));
    }
}

/// Every piece of a split holds only characters of the text that are not
/// separators; so a property of all characters of the text holds of all
/// characters of every piece.
pub proof fn lemma_split_pieces(s: Seq<char>, k: Sep, p: spec_fn(char) -> bool)
    requires
        forall|i: int| 0 <= i < s.len() ==> p(#[trigger] s[i]),
    ensures
        forall|j: int, m: int|
            0 <= j < split(s, k).len() && 0 <= m < split(s, k)[j].len() ==> p(
                #[trigger] split(s, k)[j][m],
            ) && !is_sep(k, split(s, k)[j][m]),
    decreases s.len(),
{
    if s.len() > 0 {
        let t = s.drop_last();
        assert forall|i: int| 0 <= i < t.len() implies p(#[trigger] t[i]) by {
            assert(t[i] == s[i]);
        }
        lemma_split_pieces(t, k, p);
        lemma_split_len(t, k);
        assert(p(s[s.len() - 1]));
        let r = split(t, k);
        if !is_sep(k, s.last()) {
            let u = r.update(r.len() - 1, r.last().push(s.last()));
            assert forall|j: int, m: int|
                0 <= j < u.len() && 0 <= m < u[j].len() implies p(#[trigger] u[j][m]) && !is_sep(
                k,
                u[j][m],
            ) by {
                if j == r.len() - 1 && m == r.last().len() {
                    assert(u[j][m] == s.last());
                } else if j == r.len() - 1 {
                    assert(u[j][m] == r[j][m]);
                } else {
                    assert(u[j] == r[j]);
                }
            }
        } else {
            let u = r.push(Seq::<char>::empty());
            assert forall|j: int, m: int|
                0 <= j < u.len() && 0 <= m < u[j].len() implies p(#[trigger] u[j][m]) && !is_sep(
                k,
                u[j][m],
            ) by {
                assert(u[j] == r[j]);
            }
        }
    }
}

/// `s` with every leading occurrence of `p` removed, as
/// `str::trim_start_matches` gives it.
pub open spec fn strip_repeated(s: Seq<char>, p: Seq<char>) -> Seq<char>
    decreases s.len(),
{
    if p.len() > 0 && has_prefix(s, p) {
        strip_repeated(s.skip(p.len() as int), p)
    } else {
        s
    }
}

/// The characters of `v` after every leading occurrence of `p`.
pub fn strip_repeated_chars(v: &Vec<char>, p: &Vec<char>) -> (r: Vec<char>)
    ensures
        r@ == strip_repeated(v@, p@),
{
    let n = v.len();
    let mut i: usize = 0;
    assert(v@.skip(0) == v@);
    if p.len() > 0 {
        while p.len() <= n - i && matches_at(v, p, i)
            invariant
                i <= n == v.len(),
                p.len() > 0,
                strip_repeated(v@, p@) == strip_repeated(v@.skip(i as int), p@),
            decreases n - i,
        {
            let ghost t = v@.skip(i as int);
            assert(t.take(p.len() as int) == v@.subrange(i as int, i + p.len()));
            assert(t.skip(p.len() as int) == v@.skip(i + p.len()));
            i = i + p.len();
        }
        let ghost t = v@.skip(i as int);
        if p.len() <= n - i {
            assert(t.take(p.len() as int) == v@.subrange(i as int, i + p.len()));
        }
    }
    let r = slice_of(v, i, n);
    assert(r@ == v@.skip(i as int));
    r
}

/// The views of a sequence of character vectors.
pub open spec fn views(v: Seq<Vec<char>>) -> Seq<Seq<char>> {
    v.map_values(|x: Vec<char>| x@)
}

/// The pieces of `v` between separators of kind `k`.
pub fn split_chars(v: &Vec<char>, k: Sep) -> (r: Vec<Vec<char>>)
    ensures
        views(r@) == split(v@, k),
{
    let mut done: Vec<Vec<char>> = Vec::new();
    let mut cur: Vec<char> = Vec::new();
    assert(v@.take(0) =~= Seq::<char>::empty());
    assert(views(done@).push(cur@) =~= split(v@.take(0), k));
    for i in 0..v.len()
        invariant
            views(done@).push(cur@) == split(v@.take(i as int), k),
    {
        let c = v[i];
        let ghost before = v@.take(i as int);
        assert(v@.take(i + 1).drop_last() == before);
        assert(v@.take(i + 1).last() == c);
        proof {
            lemma_split_len(before, k);
        }
        if sep_matches(k, c) {
            let ghost old_done = done@;
            done.push(cur);
            cur = Vec::new();
            assert(views(done@) =~= views(old_done).push(
                split(before, k).last(),
            ));
            assert(views(done@).push(cur@) =~= split(v@.take(i + 1), k));
        } else {
            cur.push(c);
            assert(views(done@).push(cur@) =~= split(v@.take(i + 1), k));
        }
    }
    assert(v@.take(v.len() as int) == v@);
    let ghost old_done = done@;
    done.push(cur);
    assert(views(done@) =~= views(old_done).push(split(v@, k).last()));
    done
}

// ---------------------------------------------------------------------------
// Prefixes and substrings

pub open spec fn has_prefix(s: Seq<char>, p: Seq<char>) -> bool {
    p.len() <= s.len() && s.take(p.len() as int) == p
}

pub open spec fn has_suffix(s: Seq<char>, p: Seq<char>) -> bool {
    p.len() <= s.len() && s.skip(s.len() - p.len()) == p
}

/// `p` occurs in `s` at some position.
pub open spec fn contains_seq(s: Seq<char>, p: Seq<char>) -> bool {
    exists|i: int| 0 <= i && i + p.len() <= s.len() && #[trigger] s.subrange(i, i + p.len()) == p
}

pub fn matches_at(s: &Vec<char>, p: &Vec<char>, at: usize) -> (b: bool)
    requires
        at + p.len() <= s.len(),
    ensures
        b == (s@.subrange(at as int, at + p.len()) == p@),
{
    let mut k: usize = 0;
    while k < p.len()
        invariant
            k <= p.len(),
            at + p.len() <= s.len(),
            forall|m: int| 0 <= m < k ==> s@[at + m] == p@[m],
        decreases p.len() - k,
    {
        if s[at + k] != p[k] {
            assert(s@.subrange(at as int, at + p.len())[k as int] != p@[k as int]);
            return false;
        }
        k = k + 1;
    }
    assert(s@.subrange(at as int, at + p.len()) =~= p@);
    true
}

/// Whether `a` and `b` hold the same characters.
pub fn same_chars(a: &Vec<char>, b: &Vec<char>) -> (r: bool)
    ensures
        r == (a@ == b@),
{
    if a.len() != b.len() {
        return false;
    }
    let r = matches_at(a, b, 0);
    assert(a@.subrange(0, b.len() as int) == a@);
    r
}

pub fn starts_with(s: &Vec<char>, p: &Vec<char>) -> (b: bool)
    ensures
        b == has_prefix(s@, p@),
{
    if p.len() > s.len() {
        false
    } else {
        assert(s@.take(p.len() as int) == s@.subrange(0, p.len() as int));
        matches_at(s, p, 0)
    }
}

pub fn ends_with(s: &Vec<char>, p: &Vec<char>) -> (b: bool)
    ensures
        b == has_suffix(s@, p@),
{
    if p.len() > s.len() {
        false
    } else {
        let at = s.len() - p.len();
        assert(s@.skip(at as int) == s@.subrange(at as int, at + p.len()));
        matches_at(s, p, at)
    }
}

pub fn contains(s: &Vec<char>, p: &Vec<char>) -> (b: bool)
    ensures
        b == contains_seq(s@, p@),
{
    if p.len() > s.len() {
        return false;
    }
    let last = s.len() - p.len();
    let mut i: usize = 0;
    loop
        invariant
            i <= last,
            last + p.len() == s.len(),
            forall|j: int| 0 <= j < i ==> #[trigger] s@.subrange(j, j + p.len()) != p@,
        decreases last - i,
    {
        if matches_at(s, p, i) {
            return true;
        }
        if i == last {
            return false;
        }
        i = i + 1;
    }
}

// ---------------------------------------------------------------------------
// Decimal numerals

pub open spec fn digit_char(d: int) -> char {
    (48 + d) as char
}

/// The decimal numeral of `n`, without sign or leading zeros.
pub open spec fn decimal(n: nat) -> Seq<char>
    decreases n,
{
    if n < 10 {
        seq![digit_char(n as int)]
    } else {
        decimal(n / 10).push(digit_char((n % 10) as int))
    }
}

/// A decimal numeral is a non-empty run of ASCII digits.
pub proof fn lemma_decimal_digits(n: nat)
    ensures
        decimal(n).len() >= 1,
        forall|i: int| 0 <= i < decimal(n).len() ==> 48 <= (#[trigger] decimal(n)[i]) as u32 <= 57,
    decreases n,
{
    if n >= 10 {
        lemma_decimal_digits(n / 10);
        let d = decimal(n / 10);
        assert forall|i: int| 0 <= i < decimal(n).len() implies 48 <= (
        #[trigger] decimal(n)[i]) as u32 <= 57 by {
            if i < d.len() {
                assert(decimal(n)[i] == d[i]);
            }
        }
    }
}

pub fn digit(d: u64) -> (c: char)
    requires
        d < 10,
    ensures
        c == digit_char(d as int),
{
    let b: u8 = 48u8 + (d as u8);
    b as char
}

/// The decimal numeral of `n`.
pub fn decimal_chars(n: u64) -> (r: Vec<char>)
    ensures
        r@ == decimal(n as nat),
    decreases n,
{
    if n < 10 {
        let r = vec![digit(n)];
        assert(r@ == seq![digit_char(n as int)]);
        r
    } else {
        let mut r = decimal_chars(n / 10);
        r.push(digit(n % 10));
        r
    }
}

} // verus!
