//! What the player reads from the desktop: the accent colour that KDE or
//! COSMIC stores, and the screen width that `xrandr` reports.

use vstd::prelude::*;
use crate::numbers::{
    digits_and_dots, is_digit, is_f32_literal, is_plain_decimal, lemma_plain_float, parse_u8,
    parse_u8_spec,
};
use crate::text::{
    chars_of, contains, contains_seq, has_prefix, is_white_space, lemma_split_len,
    lemma_split_pieces, lemma_trim_no_ws, lemma_split_concat, lemma_split_no_sep, is_sep, slice_of, split, split_chars, starts_with, string_of,
    strip_repeated, strip_repeated_chars, trim, trim_chars, views, Sep,
};

verus! {

// ---- KDE ---------------------------------------------------------------------

pub open spec fn kde_key() -> Seq<char> {
    "AccentColor="@
}

/// The colour of one `AccentColor=` value: three comma-separated bytes.
/// `None` (not three parts) lets the search go on; `Some(None)` (a part that
/// is not a byte) ends it without a colour.
pub open spec fn kde_value(val: Seq<char>) -> Option<Option<(u8, u8, u8)>> {
    let parts = split(val, Sep::Comma);
    if parts.len() == 3 {
        match (
            parse_u8_spec(trim(parts[0])),
            parse_u8_spec(trim(parts[1])),
            parse_u8_spec(trim(parts[2])),
        ) {
            (Some(r), Some(g), Some(b)) => Some(Some((r, g, b))),
            _ => Some(None),
        }
    } else {
        None
    }
}

/// The accent colour in the given lines of `kdeglobals`: the first line that
/// starts with `AccentColor=` and whose value (after every leading repeat of
/// the key) has three comma-separated parts decides.
pub open spec fn kde_accent_of_lines(lines: Seq<Seq<char>>) -> Option<(u8, u8, u8)>
    decreases lines.len(),
{
    if lines.len() == 0 {
        None
    } else if has_prefix(lines[0], kde_key()) {
        match kde_value(strip_repeated(lines[0], kde_key())) {
            Some(found) => found,
            None => kde_accent_of_lines(lines.drop_first()),
        }
    } else {
        kde_accent_of_lines(lines.drop_first())
    }
}

pub open spec fn kde_accent_spec(text: Seq<char>) -> Option<(u8, u8, u8)> {
    kde_accent_of_lines(split(text, Sep::Newline))
}

/// The accent colour, as bytes, in the text of KDE's `kdeglobals`.
pub fn kde_accent(contents: &str) -> (r: Option<(u8, u8, u8)>)
    ensures
        r == kde_accent_spec(contents@),
{
    let lines = split_chars(&chars_of(contents), Sep::Newline);
    let key = chars_of("AccentColor=");
    assert(views(lines@).skip(0) == views(lines@));
    for i in 0..lines.len()
        invariant
            key@ == kde_key(),
            kde_accent_spec(contents@) == kde_accent_of_lines(views(lines@).skip(i as int)),
    {
        let ghost rest = views(lines@).skip(i as int);
        assert(rest[0] == lines@[i as int]@);
        assert(rest.drop_first() == views(lines@).skip(i + 1));
        if starts_with(&lines[i], &key) {
            let val = strip_repeated_chars(&lines[i], &key);
            let parts = split_chars(&val, Sep::Comma);
            if parts.len() == 3 {
                let r = parse_u8(&trim_chars(&parts[0]));
                let g = parse_u8(&trim_chars(&parts[1]));
                let b = parse_u8(&trim_chars(&parts[2]));
                match (r, g, b) {
                    (Some(r), Some(g), Some(b)) => {
                        return Some((r, g, b));
                    },
                    _ => {
                        return None;
                    },
                }
            }
        }
    }
    None
}

// ---- COSMIC --------------------------------------------------------------------

pub open spec fn cosmic_keep(c: char) -> bool {
    is_digit(c) || c == '.' || c == ',' || c == ' '
}

/// The characters of `s` that can belong to a list of numbers.
pub open spec fn number_chars(s: Seq<char>) -> Seq<char>
    decreases s.len(),
{
    if s.len() == 0 {
        seq![]
    } else if cosmic_keep(s.last()) {
        number_chars(s.drop_last()).push(s.last())
    } else {
        number_chars(s.drop_last())
    }
}

/// The trimmed pieces that read as a float.
pub open spec fn float_texts(pieces: Seq<Seq<char>>) -> Seq<Seq<char>>
    decreases pieces.len(),
{
    if pieces.len() == 0 {
        seq![]
    } else if is_f32_literal(trim(pieces.last())) {
        float_texts(pieces.drop_last()).push(trim(pieces.last()))
    } else {
        float_texts(pieces.drop_last())
    }
}

/// The numbers in COSMIC's `accent` file: its digits, dots, commas and
/// spaces, split at commas and spaces, keeping the pieces that read as floats.
pub open spec fn cosmic_numbers(text: Seq<char>) -> Seq<Seq<char>> {
    float_texts(split(number_chars(text), Sep::CommaOrSpace))
}

/// The first three numbers, if there are three.
pub open spec fn cosmic_accent_spec(text: Seq<char>) -> Option<(Seq<char>, Seq<char>, Seq<char>)> {
    let n = cosmic_numbers(text);
    if n.len() >= 3 {
        Some((n[0], n[1], n[2]))
    } else {
        None
    }
}

/// The texts of the red, green and blue components in COSMIC's `accent` file:
/// each reads as an `f32`.
pub fn cosmic_accent(contents: &str) -> (r: Option<(String, String, String)>)
    ensures
        match r {
            Some((a, b, c)) => cosmic_accent_spec(contents@) == Some((a@, b@, c@)),
            None => cosmic_accent_spec(contents@) is None,
        },
{
    let chars = chars_of(contents);
    let mut kept: Vec<char> = Vec::new();
    for i in 0..chars.len()
        invariant
            chars@ == contents@,
            kept@ == number_chars(chars@.take(i as int)),
    {
        assert(chars@.take(i + 1).drop_last() == chars@.take(i as int));
        let c = chars[i];
        let n: u32 = c as u32;
        if (48 <= n && n <= 57) || c == '.' || c == ',' || c == ' ' {
            kept.push(c);
        }
    }
    assert(chars@.take(chars.len() as int) == chars@);
    proof {
        lemma_number_chars_kept(chars@);
        lemma_cosmic_pieces(kept@);
    }
    let pieces = split_chars(&kept, Sep::CommaOrSpace);
    let mut numbers: Vec<Vec<char>> = Vec::new();
    for j in 0..pieces.len()
        invariant
            views(pieces@) == split(kept@, Sep::CommaOrSpace),
            kept@ == number_chars(contents@),
            forall|a: int| 0 <= a < pieces@.len() ==> digits_and_dots(#[trigger] views(pieces@)[a]),
            views(numbers@) == float_texts(views(pieces@).take(j as int)),
    {
        let ghost pre = views(pieces@).take(j as int);
        assert(views(pieces@).take(j + 1).drop_last() == pre);
        let p = &pieces[j];
        assert(p@ == views(pieces@)[j as int]);
        proof {
            lemma_plain_trim(p@);
            lemma_plain_float(p@);
        }
        assert(views(pieces@).take(j + 1).last() == p@);
        if is_plain_decimal(p) {
            let copy = slice_of(p, 0, p.len());
            assert(copy@ =~= p@);
            let ghost before = views(numbers@);
            numbers.push(copy);
            assert(views(numbers@) =~= before.push(p@));
        }
    }
    assert(views(pieces@).take(pieces.len() as int) == views(pieces@));
    if numbers.len() >= 3 {
        assert(views(numbers@)[0] == numbers@[0]@);
        assert(views(numbers@)[1] == numbers@[1]@);
        assert(views(numbers@)[2] == numbers@[2]@);
        Some((string_of(&numbers[0]), string_of(&numbers[1]), string_of(&numbers[2])))
    } else {
        None
    }
}

proof fn lemma_plain_trim(p: Seq<char>)
    requires
        digits_and_dots(p),
    ensures
        trim(p) == p,
{
    assert forall|m: int| 0 <= m < p.len() implies !is_white_space(#[trigger] p[m]) by {
        assert(is_digit(p[m]) || p[m] == '.');
    }
    lemma_trim_no_ws(p);
}

proof fn lemma_cosmic_pieces(kept: Seq<char>)
    requires
        forall|i: int| 0 <= i < kept.len() ==> cosmic_keep(#[trigger] kept[i]),
    ensures
        forall|a: int|
            0 <= a < split(kept, Sep::CommaOrSpace).len() ==> digits_and_dots(
                #[trigger] split(kept, Sep::CommaOrSpace)[a],
            ),
{
    lemma_split_pieces(kept, Sep::CommaOrSpace, |c: char| cosmic_keep(c));
    assert forall|a: int| 0 <= a < split(kept, Sep::CommaOrSpace).len() implies digits_and_dots(
        #[trigger] split(kept, Sep::CommaOrSpace)[a],
    ) by {
        let piece = split(kept, Sep::CommaOrSpace)[a];
        assert forall|m: int| 0 <= m < piece.len() implies is_digit(#[trigger] piece[m]) || piece[m]
            == '.' by {
            assert(cosmic_keep(split(kept, Sep::CommaOrSpace)[a][m]));
            assert(!crate::text::is_sep(Sep::CommaOrSpace, split(kept, Sep::CommaOrSpace)[a][m]));
        }
    }
}

proof fn lemma_number_chars_kept(s: Seq<char>)
    ensures
        forall|i: int| 0 <= i < number_chars(s).len() ==> cosmic_keep(#[trigger] number_chars(s)[i]),
    decreases s.len(),
{
    if s.len() > 0 {
        lemma_number_chars_kept(s.drop_last());
        let r = number_chars(s.drop_last());
        if cosmic_keep(s.last()) {
            assert forall|i: int| 0 <= i < number_chars(s).len() implies cosmic_keep(
                #[trigger] number_chars(s)[i],
            ) by {
                if i < r.len() {
                    assert(number_chars(s)[i] == r[i]);
                }
            }
        }
    }
}

// ---- xrandr ------------------------------------------------------------------------

pub open spec fn connected_marker() -> Seq<char> {
    " connected"@
}

/// The non-empty pieces, as `str::split_whitespace` gives them.
pub open spec fn non_empty(pieces: Seq<Seq<char>>) -> Seq<Seq<char>>
    decreases pieces.len(),
{
    if pieces.len() == 0 {
        seq![]
    } else if pieces.last().len() > 0 {
        non_empty(pieces.drop_last()).push(pieces.last())
    } else {
        non_empty(pieces.drop_last())
    }
}

/// The text of a word up to its first `x`.
pub open spec fn before_x(w: Seq<char>) -> Seq<char> {
    split(w, Sep::LetterX)[0]
}

/// The width candidates of one line of `xrandr` output: on a line that
/// contains ` connected`, each word up to its first `x`.
pub open spec fn line_width_texts(line: Seq<char>) -> Seq<Seq<char>> {
    if contains_seq(line, connected_marker()) {
        non_empty(split(line, Sep::WhiteSpace)).map_values(|w: Seq<char>| before_x(w))
    } else {
        seq![]
    }
}

pub open spec fn width_texts_of_lines(lines: Seq<Seq<char>>) -> Seq<Seq<char>>
    decreases lines.len(),
{
    if lines.len() == 0 {
        seq![]
    } else {
        width_texts_of_lines(lines.drop_last()) + line_width_texts(lines.last())
    }
}

/// The candidate widths in `xrandr` output, in order.
pub open spec fn screen_width_texts(text: Seq<char>) -> Seq<Seq<char>> {
    width_texts_of_lines(split(text, Sep::Newline))
}

pub open spec fn string_views(v: Seq<String>) -> Seq<Seq<char>> {
    v.map_values(|s: String| s@)
}

fn line_candidates(line: &Vec<char>, marker: &Vec<char>, out: &mut Vec<String>)
    requires
        marker@ == connected_marker(),
    ensures
        string_views(final(out)@) == string_views(old(out)@) + line_width_texts(line@),
{
    if !contains(line, marker) {
        assert(string_views(out@) =~= string_views(out@) + Seq::<Seq<char>>::empty());
        return;
    }
    let pieces = split_chars(line, Sep::WhiteSpace);
    let ghost start = string_views(out@);
    let ghost words = non_empty(views(pieces@));
    let mut i: usize = 0;
    let ghost mut count: int = 0;
    while i < pieces.len()
        invariant
            i <= pieces.len(),
            views(pieces@) == split(line@, Sep::WhiteSpace),
            string_views(out@) == start + non_empty(views(pieces@).take(i as int)).map_values(
                |w: Seq<char>| before_x(w),
            ),
        decreases pieces.len() - i,
    {
        let ghost pre = views(pieces@).take(i as int);
        assert(views(pieces@).take(i + 1).drop_last() == pre);
        assert(views(pieces@).take(i + 1).last() == pieces@[i as int]@);
        if pieces[i].len() > 0 {
            let parts = split_chars(&pieces[i], Sep::LetterX);
            proof {
                lemma_split_len(pieces@[i as int]@, Sep::LetterX);
            }
            let w = string_of(&parts[0]);
            assert(w@ == before_x(pieces@[i as int]@));
            let ghost before = string_views(out@);
            out.push(w);
            assert(string_views(out@) =~= before.push(w@));
            assert(non_empty(views(pieces@).take(i + 1)) == non_empty(pre).push(pieces@[i as int]@));
            assert(non_empty(views(pieces@).take(i + 1)).map_values(|w: Seq<char>| before_x(w))
                =~= non_empty(pre).map_values(|w: Seq<char>| before_x(w)).push(
                before_x(pieces@[i as int]@),
            ));
        }
        i = i + 1;
    }
    assert(views(pieces@).take(pieces.len() as int) == views(pieces@));
}

/// The texts of the candidate widths in `xrandr` output, in order: on each
/// line that contains ` connected`, every word up to its first `x`. The
/// screen width is the first of them that reads as a float above 100.
pub fn screen_width_candidates(output: &str) -> (r: Vec<String>)
    ensures
        string_views(r@) == screen_width_texts(output@),
{
    let lines = split_chars(&chars_of(output), Sep::Newline);
    let marker = chars_of(" connected");
    let mut out: Vec<String> = Vec::new();
    assert(views(lines@).take(0) =~= Seq::<Seq<char>>::empty());
    assert(string_views(out@) =~= Seq::<Seq<char>>::empty());
    for i in 0..lines.len()
        invariant
            marker@ == connected_marker(),
            views(lines@) == split(output@, Sep::Newline),
            string_views(out@) == width_texts_of_lines(views(lines@).take(i as int)),
    {
        assert(views(lines@).take(i + 1).drop_last() == views(lines@).take(i as int));
        assert(views(lines@).take(i + 1).last() == lines@[i as int]@);
        line_candidates(&lines[i], &marker, &mut out);
    }
    assert(views(lines@).take(lines.len() as int) == views(lines@));
    out
}

// ---- laws ------------------------------------------------------------------------

proof fn lemma_width_texts_concat(xs: Seq<Seq<char>>, ys: Seq<Seq<char>>)
    ensures
        width_texts_of_lines(xs + ys) == width_texts_of_lines(xs) + width_texts_of_lines(ys),
    decreases ys.len(),
{
    if ys.len() == 0 {
        assert(xs + ys =~= xs);
        assert(width_texts_of_lines(xs) + width_texts_of_lines(ys) =~= width_texts_of_lines(xs));
    } else {
        lemma_width_texts_concat(xs, ys.drop_last());
        assert((xs + ys).drop_last() =~= xs + ys.drop_last());
        assert((xs + ys).last() == ys.last());
        assert(width_texts_of_lines(xs + ys) =~= width_texts_of_lines(xs) + width_texts_of_lines(ys));
    }
}

/// The width candidates keep the order of the lines of `xrandr`'s output:
/// those of an earlier line come first (so the first connected output, as
/// `xrandr` lists it, gives the screen width).
pub proof fn lemma_screen_width_order(a: Seq<char>, b: Seq<char>)
    ensures
        screen_width_texts(a + seq!['\n'] + b) == screen_width_texts(a) + screen_width_texts(b),
{
    lemma_split_concat(a, '\n', b, Sep::Newline);
    lemma_width_texts_concat(split(a, Sep::Newline), split(b, Sep::Newline));
}

proof fn lemma_number_chars_concat(x: Seq<char>, y: Seq<char>)
    ensures
        number_chars(x + y) == number_chars(x) + number_chars(y),
    decreases y.len(),
{
    if y.len() == 0 {
        assert(x + y =~= x);
        assert(number_chars(x) + number_chars(y) =~= number_chars(x));
    } else {
        lemma_number_chars_concat(x, y.drop_last());
        assert((x + y).drop_last() =~= x + y.drop_last());
        assert((x + y).last() == y.last());
        assert(number_chars(x + y) =~= number_chars(x) + number_chars(y));
    }
}

proof fn lemma_float_texts_concat(xs: Seq<Seq<char>>, ys: Seq<Seq<char>>)
    ensures
        float_texts(xs + ys) == float_texts(xs) + float_texts(ys),
    decreases ys.len(),
{
    if ys.len() == 0 {
        assert(xs + ys =~= xs);
        assert(float_texts(xs) + float_texts(ys) =~= float_texts(xs));
    } else {
        lemma_float_texts_concat(xs, ys.drop_last());
        assert((xs + ys).drop_last() =~= xs + ys.drop_last());
        assert((xs + ys).last() == ys.last());
        assert(float_texts(xs + ys) =~= float_texts(xs) + float_texts(ys));
    }
}

/// The numbers of COSMIC's accent file come in the order they are written:
/// those before a comma come before those after it.
pub proof fn lemma_cosmic_numbers_order(a: Seq<char>, b: Seq<char>)
    ensures
        cosmic_numbers(a + seq![','] + b) == cosmic_numbers(a) + cosmic_numbers(b),
{
    lemma_number_chars_concat(a + seq![','], b);
    lemma_number_chars_concat(a, seq![',']);
    assert(number_chars(seq![',']) =~= seq![',']) by {
        assert(seq![','].drop_last() =~= Seq::<char>::empty());
        assert(seq![','].last() == ',');
        assert(cosmic_keep(','));
        assert(number_chars(Seq::<char>::empty()) =~= Seq::<char>::empty());
        assert(Seq::<char>::empty().push(',') =~= seq![',']);
    }
    lemma_split_concat(number_chars(a), ',', number_chars(b), Sep::CommaOrSpace);
    lemma_float_texts_concat(
        split(number_chars(a), Sep::CommaOrSpace),
        split(number_chars(b), Sep::CommaOrSpace),
    );
}

/// The colour is the first three numbers of the file (red, green, blue), so
/// what follows them (such as an alpha value) never changes it; with fewer
/// than three numbers there is none.
pub proof fn lemma_cosmic_first_three(t: Seq<char>, rest: Seq<char>)
    ensures
        cosmic_numbers(t).len() >= 3 ==> cosmic_accent_spec(t) == Some(
            (cosmic_numbers(t)[0], cosmic_numbers(t)[1], cosmic_numbers(t)[2]),
        ),
        cosmic_numbers(t).len() < 3 ==> cosmic_accent_spec(t) is None,
        cosmic_numbers(t).len() >= 3 ==> cosmic_accent_spec(t + seq![','] + rest)
            == cosmic_accent_spec(t),
{
    lemma_cosmic_numbers_order(t, rest);
    let n = cosmic_numbers(t);
    let m = cosmic_numbers(t + seq![','] + rest);
    if n.len() >= 3 {
        assert(m[0] == n[0] && m[1] == n[1] && m[2] == n[2]);
    }
}

/// In `kdeglobals`, a line that does not start with `AccentColor=` is
/// passed over, and the first `AccentColor=` line whose value has three
/// comma-separated parts decides the colour, whatever follows it.
pub proof fn lemma_kde_first_line_decides(l: Seq<char>, rest: Seq<char>)
    requires
        forall|i: int| 0 <= i < l.len() ==> l[i] != '\n',
    ensures
        !has_prefix(l, kde_key()) ==> kde_accent_spec(l + seq!['\n'] + rest) == kde_accent_spec(rest),
        has_prefix(l, kde_key()) && kde_value(strip_repeated(l, kde_key())) is Some ==> kde_accent_spec(
            l + seq!['\n'] + rest,
        ) == kde_value(strip_repeated(l, kde_key()))->0,
        has_prefix(l, kde_key()) && kde_value(strip_repeated(l, kde_key())) is None ==> kde_accent_spec(
            l + seq!['\n'] + rest,
        ) == kde_accent_spec(rest),
{
    assert forall|i: int| 0 <= i < l.len() implies !is_sep(Sep::Newline, #[trigger] l[i]) by {}
    lemma_split_no_sep(l, Sep::Newline);
    lemma_split_concat(l, '\n', rest, Sep::Newline);
    let lines = split(l + seq!['\n'] + rest, Sep::Newline);
    assert(lines == seq![l] + split(rest, Sep::Newline));
    assert(lines[0] == l);
    assert(lines.drop_first() =~= split(rest, Sep::Newline));
}

} // verus!
