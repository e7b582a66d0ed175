//! The settings file: `key=value` lines, read back by `parse_config` and
//! written by `render_config`.
//!
//! The numbers in it (volume and accent colour components) are floats, whose
//! text the application converts; this module decides which line sets what.

use vstd::prelude::*;
use crate::text::{
    is_white_space, lemma_split_concat, lemma_split_no_sep, lemma_trim_unchanged, is_sep,
    chars_of, has_prefix, same_chars, slice_of, split, split_chars, starts_with, string_of, trim,
    trim_chars, views, Sep,
};

verus! {

/// One setting read from a line of the file, with the text of its value.
#[derive(Clone, Debug, PartialEq, Eq)]
pub enum Setting {
    Volume(String),
    FullWidth(bool),
    AccentR(String),
    AccentG(String),
    AccentB(String),
}

/// A setting, with the characters of its value.
pub enum SettingView {
    Volume(Seq<char>),
    FullWidth(bool),
    AccentR(Seq<char>),
    AccentG(Seq<char>),
    AccentB(Seq<char>),
}

impl View for Setting {
    type V = SettingView;

    open spec fn view(&self) -> SettingView {
        match self {
            Setting::Volume(s) => SettingView::Volume(s@),
            Setting::FullWidth(b) => SettingView::FullWidth(*b),
            Setting::AccentR(s) => SettingView::AccentR(s@),
            Setting::AccentG(s) => SettingView::AccentG(s@),
            Setting::AccentB(s) => SettingView::AccentB(s@),
        }
    }
}

pub open spec fn volume_key() -> Seq<char> {
    "volume="@
}

pub open spec fn full_width_key() -> Seq<char> {
    "full_width="@
}

pub open spec fn accent_r_key() -> Seq<char> {
    "accent_r="@
}

pub open spec fn accent_g_key() -> Seq<char> {
    "accent_g="@
}

pub open spec fn accent_b_key() -> Seq<char> {
    "accent_b="@
}

pub open spec fn true_text() -> Seq<char> {
    "true"@
}

pub open spec fn false_text() -> Seq<char> {
    "false"@
}

/// The setting that one line of the file makes, if any: the line is trimmed,
/// and the first key that it starts with decides.
pub open spec fn setting_of_line(line: Seq<char>) -> Option<SettingView> {
    let t = trim(line);
    if has_prefix(t, volume_key()) {
        Some(SettingView::Volume(t.skip(volume_key().len() as int)))
    } else if has_prefix(t, full_width_key()) {
        Some(SettingView::FullWidth(t.skip(full_width_key().len() as int) == true_text()))
    } else if has_prefix(t, accent_r_key()) {
        Some(SettingView::AccentR(t.skip(accent_r_key().len() as int)))
    } else if has_prefix(t, accent_g_key()) {
        Some(SettingView::AccentG(t.skip(accent_g_key().len() as int)))
    } else if has_prefix(t, accent_b_key()) {
        Some(SettingView::AccentB(t.skip(accent_b_key().len() as int)))
    } else {
        None
    }
}

/// The settings of the given lines, in order.
pub open spec fn settings_of_lines(lines: Seq<Seq<char>>) -> Seq<SettingView>
    decreases lines.len(),
{
    if lines.len() == 0 {
        seq![]
    } else {
        let r = settings_of_lines(lines.drop_last());
        match setting_of_line(lines.last()) {
            Some(x) => r.push(x),
            None => r,
        }
    }
}

/// The settings of a whole file, in the order of its lines.
pub open spec fn config_settings(text: Seq<char>) -> Seq<SettingView> {
    settings_of_lines(split(text, Sep::Newline))
}

pub open spec fn setting_views(v: Seq<Setting>) -> Seq<SettingView> {
    v.map_values(|x: Setting| x@)
}

fn value_after(t: &Vec<char>, key: &Vec<char>) -> (r: String)
    requires
        key.len() <= t.len(),
    ensures
        r@ == t@.skip(key.len() as int),
{
    let v = slice_of(t, key.len(), t.len());
    string_of(&v)
}

fn setting_of(line: &Vec<char>) -> (r: Option<Setting>)
    ensures
        match r {
            Some(x) => setting_of_line(line@) == Some(x@),
            None => setting_of_line(line@) is None,
        },
{
    let t = trim_chars(line);
    let k_volume = chars_of("volume=");
    let k_full = chars_of("full_width=");
    let k_r = chars_of("accent_r=");
    let k_g = chars_of("accent_g=");
    let k_b = chars_of("accent_b=");
    if starts_with(&t, &k_volume) {
        Some(Setting::Volume(value_after(&t, &k_volume)))
    } else if starts_with(&t, &k_full) {
        let v = slice_of(&t, k_full.len(), t.len());
        let yes = chars_of("true");
        Some(Setting::FullWidth(same_chars(&v, &yes)))
    } else if starts_with(&t, &k_r) {
        Some(Setting::AccentR(value_after(&t, &k_r)))
    } else if starts_with(&t, &k_g) {
        Some(Setting::AccentG(value_after(&t, &k_g)))
    } else if starts_with(&t, &k_b) {
        Some(Setting::AccentB(value_after(&t, &k_b)))
    } else {
        None
    }
}

/// The settings in the text of a settings file, one per recognised line, in
/// order. A later setting of the same key overrides an earlier one when the
/// application applies them; a value the application cannot read leaves the
/// earlier one in place.
pub fn parse_config(contents: &str) -> (r: Vec<Setting>)
    ensures
        setting_views(r@) == config_settings(contents@),
{
    let chars = chars_of(contents);
    let lines = split_chars(&chars, Sep::Newline);
    let mut out: Vec<Setting> = Vec::new();
    for i in 0..lines.len()
        invariant
            views(lines@) == split(contents@, Sep::Newline),
            setting_views(out@) == settings_of_lines(views(lines@).take(i as int)),
    {
        let ghost before = views(lines@).take(i as int);
        assert(views(lines@).take(i + 1).drop_last() == before);
        assert(views(lines@).take(i + 1).last() == lines@[i as int]@);
        match setting_of(&lines[i]) {
            Some(x) => {
                out.push(x);
                assert(setting_views(out@) =~= settings_of_lines(views(lines@).take(i + 1)));
            },
            None => {},
        }
    }
    assert(views(lines@).take(lines.len() as int) == views(lines@));
    out
}

pub open spec fn bool_text(b: bool) -> Seq<char> {
    if b {
        true_text()
    } else {
        false_text()
    }
}

/// The settings file for the given settings; the numbers come as the text
/// that the application formatted.
pub open spec fn rendered_config(
    volume: Seq<char>,
    full_width: bool,
    r: Seq<char>,
    g: Seq<char>,
    b: Seq<char>,
) -> Seq<char> {
    volume_key() + volume + "\n"@ + full_width_key() + bool_text(full_width) + "\n"@ + accent_r_key()
        + r + "\n"@ + accent_g_key() + g + "\n"@ + accent_b_key() + b + "\n"@
}

/// The text of the settings file for the given settings.
pub fn render_config(volume: &str, full_width: bool, r: &str, g: &str, b: &str) -> (s: String)
    ensures
        s@ == rendered_config(volume@, full_width, r@, g@, b@),
{
    let mut s = String::new();
    s.append("volume=");
    s.append(volume);
    s.append("\n");
    s.append("full_width=");
    if full_width {
        s.append("true");
    } else {
        s.append("false");
    }
    s.append("\n");
    s.append("accent_r=");
    s.append(r);
    s.append("\n");
    s.append("accent_g=");
    s.append(g);
    s.append("\n");
    s.append("accent_b=");
    s.append(b);
    s.append("\n");
    assert(s@ =~= rendered_config(volume@, full_width, r@, g@, b@));
    s
}


// ---- the settings file reads back what was written ---------------------------

/// A value that reads back as written: a single line with no white space at
/// its end (the text of a number always is).
pub open spec fn storable(x: Seq<char>) -> bool {
    &&& forall|i: int| 0 <= i < x.len() ==> x[i] != '\n'
    &&& (x.len() == 0 || !is_white_space(x.last()))
}

proof fn lemma_key_line(key: Seq<char>, x: Seq<char>)
    requires
        key.len() > 0,
        forall|i: int| 0 <= i < key.len() ==> key[i] != '\n',
        !is_white_space(key[0]),
        !is_white_space(key.last()),
        storable(x),
    ensures
        trim(key + x) == key + x,
        has_prefix(key + x, key),
        (key + x).skip(key.len() as int) == x,
        split(key + x, Sep::Newline) == seq![key + x],
{
    let l = key + x;
    assert(l[0] == key[0]);
    if x.len() == 0 {
        assert(l.last() == key.last());
    } else {
        assert(l.last() == x.last());
    }
    lemma_trim_unchanged(l);
    assert(l.take(key.len() as int) =~= key);
    assert(l.skip(key.len() as int) =~= x);
    assert forall|i: int| 0 <= i < l.len() implies !is_sep(Sep::Newline, #[trigger] l[i]) by {
        if i < key.len() {
            assert(l[i] == key[i]);
        } else {
            assert(l[i] == x[i - key.len()]);
        }
    }
    lemma_split_no_sep(l, Sep::Newline);
}

proof fn lemma_rendered_lines(
    volume: Seq<char>,
    full_width: bool,
    r: Seq<char>,
    g: Seq<char>,
    b: Seq<char>,
)
    requires
        storable(volume),
        storable(r),
        storable(g),
        storable(b),
    ensures
        split(rendered_config(volume, full_width, r, g, b), Sep::Newline) == seq![
            volume_key() + volume,
            full_width_key() + bool_text(full_width),
            accent_r_key() + r,
            accent_g_key() + g,
            accent_b_key() + b,
            Seq::<char>::empty(),
        ],
{
    reveal_strlit("volume=");
    reveal_strlit("full_width=");
    reveal_strlit("accent_r=");
    reveal_strlit("accent_g=");
    reveal_strlit("accent_b=");
    reveal_strlit("true");
    reveal_strlit("false");
    reveal_strlit("\n");
    let fw = bool_text(full_width);
    let l1 = volume_key() + volume;
    let l2 = full_width_key() + fw;
    let l3 = accent_r_key() + r;
    let l4 = accent_g_key() + g;
    let l5 = accent_b_key() + b;
    lemma_key_line(volume_key(), volume);
    lemma_key_line(full_width_key(), fw);
    lemma_key_line(accent_r_key(), r);
    lemma_key_line(accent_g_key(), g);
    lemma_key_line(accent_b_key(), b);
    let nl = seq!['\n'];
    assert("\n"@ == nl);
    let e = Seq::<char>::empty();
    let t5 = l5 + nl + e;
    let t4 = l4 + nl + t5;
    let t3 = l3 + nl + t4;
    let t2 = l2 + nl + t3;
    let t1 = l1 + nl + t2;
    assert(rendered_config(volume, full_width, r, g, b) =~= t1);
    lemma_split_concat(l5, '\n', e, Sep::Newline);
    lemma_split_concat(l4, '\n', t5, Sep::Newline);
    lemma_split_concat(l3, '\n', t4, Sep::Newline);
    lemma_split_concat(l2, '\n', t3, Sep::Newline);
    lemma_split_concat(l1, '\n', t2, Sep::Newline);
    assert(split(t1, Sep::Newline) =~= seq![l1, l2, l3, l4, l5, e]);
}

proof fn lemma_not_prefix(l: Seq<char>, key: Seq<char>, i: int)
    requires
        0 <= i < l.len(),
        i < key.len(),
        l[i] != key[i],
    ensures
        !has_prefix(l, key),
{
    if has_prefix(l, key) {
        assert(l.take(key.len() as int)[i] == l[i]);
    }
}

proof fn lemma_line_settings(
    volume: Seq<char>,
    full_width: bool,
    r: Seq<char>,
    g: Seq<char>,
    b: Seq<char>,
)
    requires
        storable(volume),
        storable(r),
        storable(g),
        storable(b),
    ensures
        setting_of_line(volume_key() + volume) == Some(SettingView::Volume(volume)),
        setting_of_line(full_width_key() + bool_text(full_width)) == Some(
            SettingView::FullWidth(full_width),
        ),
        setting_of_line(accent_r_key() + r) == Some(SettingView::AccentR(r)),
        setting_of_line(accent_g_key() + g) == Some(SettingView::AccentG(g)),
        setting_of_line(accent_b_key() + b) == Some(SettingView::AccentB(b)),
        setting_of_line(Seq::<char>::empty()) is None,
{
    reveal_strlit("volume=");
    reveal_strlit("full_width=");
    reveal_strlit("accent_r=");
    reveal_strlit("accent_g=");
    reveal_strlit("accent_b=");
    reveal_strlit("true");
    reveal_strlit("false");
    let fw = bool_text(full_width);
    let l1 = volume_key() + volume;
    let l2 = full_width_key() + fw;
    let l3 = accent_r_key() + r;
    let l4 = accent_g_key() + g;
    let l5 = accent_b_key() + b;
    lemma_key_line(volume_key(), volume);
    lemma_key_line(full_width_key(), fw);
    lemma_key_line(accent_r_key(), r);
    lemma_key_line(accent_g_key(), g);
    lemma_key_line(accent_b_key(), b);
    assert(l2[0] == 'f');
    assert(l3[0] == 'a' && l3[7] == 'r');
    assert(l4[0] == 'a' && l4[7] == 'g');
    assert(l5[0] == 'a' && l5[7] == 'b');
    lemma_not_prefix(l2, volume_key(), 0);
    lemma_not_prefix(l3, volume_key(), 0);
    lemma_not_prefix(l3, full_width_key(), 0);
    lemma_not_prefix(l4, volume_key(), 0);
    lemma_not_prefix(l4, full_width_key(), 0);
    lemma_not_prefix(l4, accent_r_key(), 7);
    lemma_not_prefix(l5, volume_key(), 0);
    lemma_not_prefix(l5, full_width_key(), 0);
    lemma_not_prefix(l5, accent_r_key(), 7);
    lemma_not_prefix(l5, accent_g_key(), 7);
    if full_width {
        assert(fw == true_text());
    } else {
        assert(fw != true_text()) by {
            assert(fw.len() != true_text().len());
        }
    }
    let e = Seq::<char>::empty();
    assert(trim(e) == e);
}

/// Written settings read back as they were: the file that `render_config`
/// writes for a volume, a full-width flag and three colour components gives
/// back, through `parse_config`, exactly these five settings in this order.
pub proof fn lemma_config_round_trip(
    volume: Seq<char>,
    full_width: bool,
    r: Seq<char>,
    g: Seq<char>,
    b: Seq<char>,
)
    requires
        storable(volume),
        storable(r),
        storable(g),
        storable(b),
    ensures
        config_settings(rendered_config(volume, full_width, r, g, b)) == seq![
            SettingView::Volume(volume),
            SettingView::FullWidth(full_width),
            SettingView::AccentR(r),
            SettingView::AccentG(g),
            SettingView::AccentB(b),
        ],
{
    lemma_rendered_lines(volume, full_width, r, g, b);
    lemma_line_settings(volume, full_width, r, g, b);
    let l1 = volume_key() + volume;
    let l2 = full_width_key() + bool_text(full_width);
    let l3 = accent_r_key() + r;
    let l4 = accent_g_key() + g;
    let l5 = accent_b_key() + b;
    let e = Seq::<char>::empty();
    let lines = seq![l1, l2, l3, l4, l5, e];
    assert(lines.drop_last() =~= seq![l1, l2, l3, l4, l5]);
    assert(seq![l1, l2, l3, l4, l5].drop_last() =~= seq![l1, l2, l3, l4]);
    assert(seq![l1, l2, l3, l4].drop_last() =~= seq![l1, l2, l3]);
    assert(seq![l1, l2, l3].drop_last() =~= seq![l1, l2]);
    assert(seq![l1, l2].drop_last() =~= seq![l1]);
    assert(seq![l1].drop_last() =~= Seq::<Seq<char>>::empty());
    assert(settings_of_lines(Seq::<Seq<char>>::empty()) =~= Seq::<SettingView>::empty());
    assert(seq![l1].last() == l1);
    assert(seq![l1, l2].last() == l2);
    assert(seq![l1, l2, l3].last() == l3);
    assert(seq![l1, l2, l3, l4].last() == l4);
    assert(seq![l1, l2, l3, l4, l5].last() == l5);
    assert(lines.last() == e);
    assert(settings_of_lines(seq![l1]) =~= seq![SettingView::Volume(volume)]);
    assert(settings_of_lines(seq![l1, l2]) =~= seq![
        SettingView::Volume(volume),
        SettingView::FullWidth(full_width),
    ]);
    assert(settings_of_lines(seq![l1, l2, l3]) =~= seq![
        SettingView::Volume(volume),
        SettingView::FullWidth(full_width),
        SettingView::AccentR(r),
    ]);
    assert(settings_of_lines(seq![l1, l2, l3, l4]) =~= seq![
        SettingView::Volume(volume),
        SettingView::FullWidth(full_width),
        SettingView::AccentR(r),
        SettingView::AccentG(g),
    ]);
    assert(settings_of_lines(seq![l1, l2, l3, l4, l5]) =~= seq![
        SettingView::Volume(volume),
        SettingView::FullWidth(full_width),
        SettingView::AccentR(r),
        SettingView::AccentG(g),
        SettingView::AccentB(b),
    ]);
}

proof fn lemma_settings_concat(xs: Seq<Seq<char>>, ys: Seq<Seq<char>>)
    ensures
        settings_of_lines(xs + ys) == settings_of_lines(xs) + settings_of_lines(ys),
    decreases ys.len(),
{
    if ys.len() == 0 {
        assert(xs + ys =~= xs);
        assert(settings_of_lines(xs) + settings_of_lines(ys) =~= settings_of_lines(xs));
    } else {
        lemma_settings_concat(xs, ys.drop_last());
        assert((xs + ys).drop_last() =~= xs + ys.drop_last());
        assert((xs + ys).last() == ys.last());
        assert(settings_of_lines(xs + ys) =~= settings_of_lines(xs) + settings_of_lines(ys));
    }
}

/// The settings keep the order of the lines of the file, so that the
/// application applies a later setting of a key after an earlier one.
pub proof fn lemma_config_order(a: Seq<char>, b: Seq<char>)
    ensures
        config_settings(a + seq!['\n'] + b) == config_settings(a) + config_settings(b),
{
    lemma_split_concat(a, '\n', b, Sep::Newline);
    lemma_settings_concat(split(a, Sep::Newline), split(b, Sep::Newline));
}

} // verus!
