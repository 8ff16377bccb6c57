//! The positional mini-language for one highlight-group specification.
//!
//! A specification is either `link:<target>`, which aliases another
//! highlight group, or up to five space-separated fields in fixed order:
//! foreground, background, style, special and blend.  A field written as
//! `-` is explicitly absent; fields missing because the input ended early
//! are absent as well.  Color fields hold either a `#rrggbb` literal or
//! the name of a palette entry; the style field holds a run of
//! single-character flags; the blend field holds a base-10 integer from
//! 0 to 100.

use crate::palette::rgb_color::hex_decode_rgb;
use crate::palette::rgb_color::is_hex_digit;
use crate::palette::rgb_color::spec_render_rgb;
use crate::palette::rgb_color::spec_rgb_bytes;
use crate::palette::rgb_color::spec_rgb_literal;
use crate::palette::rgb_color::RgbColor;
use crate::sections::color_spec::is_style_char;
use crate::sections::color_spec::spec_style_of;
use crate::sections::color_spec::ColorFormat;
use crate::sections::color_spec::ColorSpec;
use crate::sections::color_spec::Style;
use vstd::prelude::*;

verus! {

/// One color field of a specification: an inline literal or the name of
/// a palette entry, resolved only when the sections are validated.
#[derive(Debug, Clone)]
pub enum Color {
    Color(RgbColor),
    PaletteRef(String),
}

/// The error for a specification string that does not follow the
/// mini-language; it carries the whole input and a description of the
/// cause.
#[derive(Debug)]
pub struct ParseColorSpecError(pub String, pub String);

/// The mathematical value of one color field: literal bytes or a
/// referenced name.
pub enum ColorModel {
    Lit(Seq<u8>),
    Ref(Seq<char>),
}

/// The mathematical value of a parsed non-link specification.
pub struct FormatModel {
    pub fg: Option<ColorModel>,
    pub bg: Option<ColorModel>,
    pub style: Option<Style>,
    pub special: Option<ColorModel>,
    pub blend: Option<u8>,
}

/// The mathematical value of a parsed specification.
pub enum ColorSpecModel {
    Link(Seq<char>),
    Color(FormatModel),
}

/// The value a `Color` stands for.
pub open spec fn view_color(c: Color) -> ColorModel {
    match c {
        Color::Color(rgb) => ColorModel::Lit(rgb.0@),
        Color::PaletteRef(name) => ColorModel::Ref(name@),
    }
}

/// The value an optional `Color` stands for.
pub open spec fn view_opt_color(c: Option<Color>) -> Option<ColorModel> {
    match c {
        Option::Some(c) => Option::Some(view_color(c)),
        Option::None => Option::None,
    }
}

/// The value a `ColorFormat` stands for.
pub open spec fn view_format(f: ColorFormat) -> FormatModel {
    FormatModel {
        fg: view_opt_color(f.fg),
        bg: view_opt_color(f.bg),
        style: f.style,
        special: view_opt_color(f.special),
        blend: f.blend,
    }
}

/// The value a `ColorSpec` stands for.
pub open spec fn view_color_spec(cs: ColorSpec) -> ColorSpecModel {
    match cs {
        ColorSpec::Link(target) => ColorSpecModel::Link(target@),
        ColorSpec::Color(f) => ColorSpecModel::Color(view_format(f)),
    }
}

/// Whether the input takes the link form: it starts with `link:`.
pub open spec fn spec_link_form(s: Seq<char>) -> bool {
    s.len() >= 5 && s.subrange(0, 5) == seq!['l', 'i', 'n', 'k', ':']
}

/// The segments of `s` between single space characters.  A run of k
/// spaces yields k - 1 empty segments, and a leading or trailing space an
/// empty first or last segment.
pub open spec fn spec_split(s: Seq<char>) -> Seq<Seq<char>>
    decreases s.len(),
{
    if s.len() == 0 {
        seq![Seq::<char>::empty()]
    } else if s[0] == ' ' {
        seq![Seq::<char>::empty()] + spec_split(s.drop_first())
    } else {
        let rest = spec_split(s.drop_first());
        rest.update(0, seq![s[0]] + rest[0])
    }
}

/// The fields of a non-link specification: no field at all for the empty
/// input, otherwise the space-separated segments.
pub open spec fn spec_tokens(s: Seq<char>) -> Seq<Seq<char>> {
    if s.len() == 0 {
        Seq::<Seq<char>>::empty()
    } else {
        spec_split(s)
    }
}

/// The cause reported for more than five fields.
pub open spec fn cause_too_many() -> Seq<char> {
    "expected at most 5 fields"@
}

/// The cause reported for an empty field, written as two spaces in a
/// row or as a leading or trailing space.
pub open spec fn cause_empty_field() -> Seq<char> {
    "empty field"@
}

/// The cause reported for a character that names no style attribute.
pub open spec fn cause_bad_style(c: char) -> Seq<char> {
    "style character '"@ + seq![c] + "' not recognized"@
}

/// The cause reported for a blend field that is not a number.
pub open spec fn cause_blend_nan() -> Seq<char> {
    "blend must be a base-10 integer"@
}

/// The cause reported for a blend number above 100.
pub open spec fn cause_blend_range(tok: Seq<char>) -> Seq<char> {
    "blend "@ + tok + " out of range 0..=100"@
}

/// What a foreground, background or special field parses to: `-` is an
/// explicit absence, a `#` with six hexadecimal digits a literal, and
/// every other non-empty segment the name of a palette entry.
pub open spec fn spec_color_field(o: Option<Seq<char>>) -> Result<Option<ColorModel>, Seq<char>> {
    match o {
        Option::None => Result::Ok(Option::None),
        Option::Some(t) => if t.len() == 0 {
            Result::Err(cause_empty_field())
        } else if t.len() == 1 && t[0] == '-' {
            Result::Ok(Option::None)
        } else if spec_rgb_literal(t) {
            Result::Ok(Option::Some(ColorModel::Lit(spec_rgb_bytes(t))))
        } else {
            Result::Ok(Option::Some(ColorModel::Ref(t)))
        },
    }
}

/// Whether every character of the segment names a style attribute.
pub open spec fn spec_all_style(t: Seq<char>) -> bool {
    forall|i: int| 0 <= i < t.len() ==> is_style_char(#[trigger] t[i])
}

/// The position of the first character that names no style attribute.
pub open spec fn first_bad_style(t: Seq<char>) -> int
    decreases t.len(),
{
    if t.len() == 0 {
        0
    } else if !is_style_char(t[0]) {
        0
    } else {
        1 + first_bad_style(t.drop_first())
    }
}

/// What a style field parses to: `-` is an explicit absence, a run of
/// attribute characters the corresponding flag set, and any other
/// character a hard error naming it.
pub open spec fn spec_style_field(o: Option<Seq<char>>) -> Result<Option<Style>, Seq<char>> {
    match o {
        Option::None => Result::Ok(Option::None),
        Option::Some(t) => if t.len() == 0 {
            Result::Err(cause_empty_field())
        } else if t.len() == 1 && t[0] == '-' {
            Result::Ok(Option::None)
        } else if spec_all_style(t) {
            Result::Ok(Option::Some(spec_style_of(t)))
        } else {
            Result::Err(cause_bad_style(t[first_bad_style(t)]))
        },
    }
}

/// Whether `c` is an ASCII decimal digit.
pub open spec fn is_dec_digit(c: char) -> bool {
    48 <= c as u32 && c as u32 <= 57
}

/// The numeric value of a decimal digit.
pub open spec fn dec_digit_value(c: char) -> int {
    c as u32 - 48
}

/// Whether every character of the segment is a decimal digit.
pub open spec fn spec_all_digits(t: Seq<char>) -> bool {
    forall|i: int| 0 <= i < t.len() ==> is_dec_digit(#[trigger] t[i])
}

/// The number written by a run of decimal digits.
pub open spec fn spec_dec_value(t: Seq<char>) -> int
    decreases t.len(),
{
    if t.len() == 0 {
        0
    } else {
        spec_dec_value(t.drop_last()) * 10 + dec_digit_value(t.last())
    }
}

/// What a blend field parses to: `-` is an explicit absence, a run of
/// digits its value when it is at most 100, and anything else an error.
pub open spec fn spec_blend_field(o: Option<Seq<char>>) -> Result<Option<u8>, Seq<char>> {
    match o {
        Option::None => Result::Ok(Option::None),
        Option::Some(t) => if t.len() == 0 {
            Result::Err(cause_empty_field())
        } else if t.len() == 1 && t[0] == '-' {
            Result::Ok(Option::None)
        } else if !spec_all_digits(t) {
            Result::Err(cause_blend_nan())
        } else if spec_dec_value(t) > 100 {
            Result::Err(cause_blend_range(t))
        } else {
            Result::Ok(Option::Some(spec_dec_value(t) as u8))
        },
    }
}

/// The field at position `i`, absent when the input ended before it.
pub open spec fn spec_opt_tok(toks: Seq<Seq<char>>, i: int) -> Option<Seq<char>> {
    if 0 <= i < toks.len() {
        Option::Some(toks[i])
    } else {
        Option::None
    }
}

/// What the five positional fields parse to; the first failing field,
/// left to right, decides the error.
pub open spec fn spec_fields(toks: Seq<Seq<char>>) -> Result<FormatModel, Seq<char>> {
    let fg = spec_color_field(spec_opt_tok(toks, 0));
    let bg = spec_color_field(spec_opt_tok(toks, 1));
    let st = spec_style_field(spec_opt_tok(toks, 2));
    let sp = spec_color_field(spec_opt_tok(toks, 3));
    let bl = spec_blend_field(spec_opt_tok(toks, 4));
    if fg is Err {
        Result::Err(fg->Err_0)
    } else if bg is Err {
        Result::Err(bg->Err_0)
    } else if st is Err {
        Result::Err(st->Err_0)
    } else if sp is Err {
        Result::Err(sp->Err_0)
    } else if bl is Err {
        Result::Err(bl->Err_0)
    } else {
        Result::Ok(
            FormatModel {
                fg: fg->Ok_0,
                bg: bg->Ok_0,
                style: st->Ok_0,
                special: sp->Ok_0,
                blend: bl->Ok_0,
            },
        )
    }
}

/// What a whole specification string parses to: the link form wins over
/// everything else, then at most five positional fields are read.
pub open spec fn spec_parse(s: Seq<char>) -> Result<ColorSpecModel, Seq<char>> {
    if spec_link_form(s) {
        Result::Ok(ColorSpecModel::Link(s.skip(5)))
    } else if spec_tokens(s).len() > 5 {
        Result::Err(cause_too_many())
    } else {
        match spec_fields(spec_tokens(s)) {
            Result::Ok(f) => Result::Ok(ColorSpecModel::Color(f)),
            Result::Err(c) => Result::Err(c),
        }
    }
}

/// The segments named by a list of index pairs into `s`.
pub open spec fn views_of(s: Seq<char>, ps: Seq<(usize, usize)>) -> Seq<Seq<char>> {
    Seq::new(ps.len(), |i: int| s.subrange(ps[i].0 as int, ps[i].1 as int))
}

/// Splitting `s` whose first space, if any, sits at `j` reads one
/// segment up to `j` and then splits the rest.
proof fn lemma_split_step(s: Seq<char>, j: int)
    requires
        0 <= j <= s.len(),
        forall|k: int| 0 <= k < j ==> s[k] != ' ',
        j < s.len() ==> s[j] == ' ',
    ensures
        j == s.len() ==> spec_split(s) == seq![s],
        j < s.len() ==> spec_split(s) == seq![s.take(j)] + spec_split(s.skip(j + 1)),
    decreases j,
{
    if j == 0 {
        if s.len() == 0 {
            assert(s =~= Seq::<char>::empty());
            assert(spec_split(s) =~~= seq![s]);
        } else {
            assert(s[0] == ' ');
            assert(s.take(0) =~= Seq::<char>::empty());
            assert(s.skip(1) =~= s.drop_first());
            assert(spec_split(s) =~~= seq![s.take(0)] + spec_split(s.skip(1)));
        }
    } else {
        let d = s.drop_first();
        lemma_split_step(d, j - 1);
        let rest = spec_split(d);
        lemma_split_nonempty(d);
        if j == s.len() {
            assert(rest == seq![d]);
            assert(seq![s[0]] + rest[0] =~= s);
            assert(spec_split(s) =~~= seq![s]);
        } else {
            assert(d[j - 1] == s[j]);
            assert(rest == seq![d.take(j - 1)] + spec_split(d.skip(j)));
            assert(rest[0] == d.take(j - 1));
            assert(seq![s[0]] + d.take(j - 1) =~= s.take(j));
            assert(d.skip(j) =~= s.skip(j + 1));
            assert(spec_split(s) == rest.update(0, seq![s[0]] + rest[0]));
            assert(rest.update(0, s.take(j)) =~~= seq![s.take(j)] + spec_split(s.skip(j + 1)));
            assert(spec_split(s) =~~= seq![s.take(j)] + spec_split(s.skip(j + 1)));
        }
    }
}

/// A split always yields at least one segment.
proof fn lemma_split_nonempty(s: Seq<char>)
    ensures
        spec_split(s).len() >= 1,
    decreases s.len(),
{
    if s.len() > 0 {
        lemma_split_nonempty(s.drop_first());
    }
}

/// Cuts the input into its space-separated segments, each as a pair of
/// character indexes.
fn tokenize(input: &str) -> (r: Vec<(usize, usize)>)
    ensures
        views_of(input@, r@) == spec_tokens(input@),
        forall|i: int|
            0 <= i < r@.len() ==> (#[trigger] r@[i]).0 <= r@[i].1 && r@[i].1 <= input@.len(),
{
    let ghost s = input@;
    let n = input.unicode_len();
    let mut r: Vec<(usize, usize)> = Vec::new();
    if n == 0 {
        proof {
            assert(views_of(s, r@) =~~= spec_tokens(s));
        }
        return r;
    }
    let mut pos: usize = 0;
    proof {
        assert(s.skip(0) =~= s);
        assert(views_of(s, r@) + spec_split(s.skip(0)) =~~= spec_split(s));
    }
    loop
        invariant
            n == s.len(),
            n >= 1,
            0 <= pos <= n,
            input@ == s,
            spec_split(s) == views_of(s, r@) + spec_split(s.skip(pos as int)),
            forall|i: int|
                0 <= i < r@.len() ==> (#[trigger] r@[i]).0 <= r@[i].1 && r@[i].1 <= n,
        decreases n - pos + 1,
    {
        let mut j: usize = pos;
        while j < n && input.get_char(j) != ' '
            invariant
                n == s.len(),
                input@ == s,
                pos <= j <= n,
                forall|k: int| pos <= k < j ==> s[k] != ' ',
            decreases n - j,
        {
            j += 1;
        }
        proof {
            let suffix = s.skip(pos as int);
            lemma_split_step(suffix, j - pos);
            if j < n {
                assert(suffix[j - pos] == s[j as int]);
            }
            assert(suffix.take(j - pos) =~= s.subrange(pos as int, j as int));
        }
        let ghost old_r = r@;
        r.push((pos, j));
        proof {
            assert(views_of(s, r@) =~~= views_of(s, old_r).push(
                s.subrange(pos as int, j as int),
            ));
        }
        if j == n {
            proof {
                let suffix = s.skip(pos as int);
                assert(suffix.take(j - pos) =~= suffix);
                assert(spec_split(s.skip(pos as int)) == seq![suffix]);
                assert(suffix =~= s.subrange(pos as int, j as int));
                assert(spec_split(s) =~~= views_of(s, r@));
                assert(views_of(s, r@) =~~= spec_tokens(s));
            }
            return r;
        }
        proof {
            let suffix = s.skip(pos as int);
            assert(suffix.skip(j - pos + 1) =~= s.skip(j + 1));
            assert(spec_split(s) =~~= views_of(s, r@) + spec_split(s.skip(j + 1)));
        }
        pos = j + 1;
    }
}

/// Appending one character to a run makes it contain exactly the
/// characters of the run and the new one.
proof fn lemma_contains_push(p: Seq<char>, c: char, x: char)
    ensures
        p.push(c).contains(x) <==> (p.contains(x) || x == c),
{
    if p.contains(x) {
        let i = choose|i: int| 0 <= i < p.len() && p[i] == x;
        assert(p.push(c)[i] == x);
    }
    if x == c {
        assert(p.push(c)[p.len() as int] == x);
    }
    if p.push(c).contains(x) {
        let i = choose|i: int| 0 <= i < p.push(c).len() && p.push(c)[i] == x;
        if i < p.len() {
            assert(p[i] == x);
        }
    }
}

/// The style set with the attribute of `c` added.
pub open spec fn spec_style_add(st: Style, c: char) -> Style {
    Style {
        standout: st.standout || c == 'o',
        underline: st.underline || c == 'u',
        undercurl: st.undercurl || c == 'c',
        underdouble: st.underdouble || c == 'd',
        underdotted: st.underdotted || c == 't',
        underdashed: st.underdashed || c == 'h',
        strikethrough: st.strikethrough || c == 's',
        italic: st.italic || c == 'i',
        bold: st.bold || c == 'b',
        reverse: st.reverse || c == 'r',
        nocombine: st.nocombine || c == 'n',
    }
}

/// Reading one more character of a run adds exactly its attribute.
proof fn lemma_style_of_push(p: Seq<char>, c: char)
    ensures
        spec_style_of(p.push(c)) == spec_style_add(spec_style_of(p), c),
{
    lemma_contains_push(p, c, 'o');
    lemma_contains_push(p, c, 'u');
    lemma_contains_push(p, c, 'c');
    lemma_contains_push(p, c, 'd');
    lemma_contains_push(p, c, 't');
    lemma_contains_push(p, c, 'h');
    lemma_contains_push(p, c, 's');
    lemma_contains_push(p, c, 'i');
    lemma_contains_push(p, c, 'b');
    lemma_contains_push(p, c, 'r');
    lemma_contains_push(p, c, 'n');
}

/// A run whose first bad character sits at `j` has `first_bad_style`
/// equal to `j`.
proof fn lemma_first_bad_style(t: Seq<char>, j: int)
    requires
        0 <= j < t.len(),
        forall|k: int| 0 <= k < j ==> is_style_char(#[trigger] t[k]),
        !is_style_char(t[j]),
    ensures
        first_bad_style(t) == j,
    decreases j,
{
    if j > 0 {
        let d = t.drop_first();
        assert(forall|k: int| 0 <= k < j - 1 ==> d[k] == t[k + 1]);
        lemma_first_bad_style(d, j - 1);
    }
}

/// The number written by a run of digits is never negative.
proof fn lemma_dec_value_nonneg(t: Seq<char>)
    requires
        spec_all_digits(t),
    ensures
        spec_dec_value(t) >= 0,
    decreases t.len(),
{
    if t.len() > 0 {
        let d = t.drop_last();
        assert(forall|k: int| 0 <= k < d.len() ==> d[k] == t[k]);
        lemma_dec_value_nonneg(d);
    }
}

/// Reads one foreground, background or special color field.
#[verifier::loop_isolation(false)]
fn parse_color_token(input: &str, start: usize, end: usize) -> (r: Result<Option<Color>, String>)
    requires
        start <= end <= input@.len(),
    ensures
        ({
            let res = spec_color_field(Option::Some(input@.subrange(start as int, end as int)));
            match r {
                Result::Ok(oc) => res is Ok && view_opt_color(oc) == res->Ok_0,
                Result::Err(m) => res is Err && m@ == res->Err_0,
            }
        }),
{
    let ghost t = input@.subrange(start as int, end as int);
    if end == start {
        return Err(String::from_str("empty field"));
    }
    if end - start == 1 && input.get_char(start) == '-' {
        proof {
            assert(t[0] == input@[start as int]);
        }
        return Ok(None);
    }
    let tok = input.substring_char(start, end);
    if end - start == 7 && input.get_char(start) == '#' {
        let digits = tok.substring_char(1, 7);
        proof {
            assert(t[0] == input@[start as int]);
            assert(forall|i: int| 0 <= i < 6 ==> digits@[i] == #[trigger] t[i + 1]);
        }
        match hex_decode_rgb(digits) {
            Some(b) => {
                proof {
                    assert forall|i: int| 1 <= i < 7 implies is_hex_digit(#[trigger] t[i]) by {
                        assert(digits@[i - 1] == t[i]);
                    }
                    assert(spec_rgb_literal(t));
                    assert(b@ =~= spec_rgb_bytes(t));
                }
                return Ok(Some(Color::Color(RgbColor(b))));
            },
            None => {
                proof {
                    if spec_rgb_literal(t) {
                        assert forall|i: int| 0 <= i < 6 implies is_hex_digit(
                            #[trigger] digits@[i],
                        ) by {
                            assert(digits@[i] == t[i + 1]);
                        }
                    }
                    assert(!spec_rgb_literal(t));
                }
                return Ok(Some(Color::PaletteRef(tok.to_owned())));
            },
        }
    }
    proof {
        if spec_rgb_literal(t) {
            assert(t[0] == input@[start as int]);
            assert(false);
        }
    }
    Ok(Some(Color::PaletteRef(tok.to_owned())))
}

/// Reads one style field: a run of attribute characters.
#[verifier::loop_isolation(false)]
#[verifier::rlimit(100)]
fn parse_style_token(input: &str, start: usize, end: usize) -> (r: Result<Option<Style>, String>)
    requires
        start <= end <= input@.len(),
    ensures
        ({
            let res = spec_style_field(Option::Some(input@.subrange(start as int, end as int)));
            match r {
                Result::Ok(st) => res == Result::<Option<Style>, Seq<char>>::Ok(st),
                Result::Err(m) => res is Err && m@ == res->Err_0,
            }
        }),
{
    let ghost t = input@.subrange(start as int, end as int);
    if end == start {
        return Err(String::from_str("empty field"));
    }
    if end - start == 1 && input.get_char(start) == '-' {
        proof {
            assert(t[0] == input@[start as int]);
        }
        return Ok(None);
    }
    let mut st = Style {
        standout: false,
        underline: false,
        undercurl: false,
        underdouble: false,
        underdotted: false,
        underdashed: false,
        strikethrough: false,
        italic: false,
        bold: false,
        reverse: false,
        nocombine: false,
    };
    proof {
        assert(t.take(0) =~= Seq::<char>::empty());
    }
    let mut j: usize = start;
    while j < end
        invariant
            start <= j <= end,
            forall|k: int| 0 <= k < j - start ==> is_style_char(#[trigger] t[k]),
            st == spec_style_of(t.take(j - start)),
        decreases end - j,
    {
        let c = input.get_char(j);
        proof {
            assert(t[j - start] == input@[j as int]);
        }
        let ghost prefix = t.take(j - start);
        if c == 'o' {
            st.standout = true;
        } else if c == 'u' {
            st.underline = true;
        } else if c == 'c' {
            st.undercurl = true;
        } else if c == 'd' {
            st.underdouble = true;
        } else if c == 't' {
            st.underdotted = true;
        } else if c == 'h' {
            st.underdashed = true;
        } else if c == 's' {
            st.strikethrough = true;
        } else if c == 'i' {
            st.italic = true;
        } else if c == 'b' {
            st.bold = true;
        } else if c == 'r' {
            st.reverse = true;
        } else if c == 'n' {
            st.nocombine = true;
        } else {
            let mut m = String::from_str("style character '");
            m.append(input.substring_char(j, j + 1));
            m.append("' not recognized");
            proof {
                lemma_first_bad_style(t, j - start);
                assert(input@.subrange(j as int, j + 1) =~= seq![t[j - start]]);
                assert(m@ =~= cause_bad_style(t[first_bad_style(t)]));
                assert(!spec_all_style(t));
            }
            return Err(m);
        }
        proof {
            let np = t.take(j + 1 - start);
            assert(np =~= prefix.push(t[j - start]));
            lemma_style_of_push(prefix, t[j - start]);
            assert(st == spec_style_add(spec_style_of(prefix), t[j - start]));
            assert(st == spec_style_of(np));
        }
        j += 1;
    }
    proof {
        assert(t.take(end - start) =~= t);
        assert(spec_all_style(t));
    }
    Ok(Some(st))
}

/// Reads one blend field: a run of decimal digits worth at most 100.
#[verifier::loop_isolation(false)]
fn parse_blend_token(input: &str, start: usize, end: usize) -> (r: Result<Option<u8>, String>)
    requires
        start <= end <= input@.len(),
    ensures
        ({
            let res = spec_blend_field(Option::Some(input@.subrange(start as int, end as int)));
            match r {
                Result::Ok(b) => res == Result::<Option<u8>, Seq<char>>::Ok(b),
                Result::Err(m) => res is Err && m@ == res->Err_0,
            }
        }),
{
    let ghost t = input@.subrange(start as int, end as int);
    if end == start {
        return Err(String::from_str("empty field"));
    }
    if end - start == 1 && input.get_char(start) == '-' {
        proof {
            assert(t[0] == input@[start as int]);
        }
        return Ok(None);
    }
    proof {
        assert(t.take(0) =~= Seq::<char>::empty());
    }
    let mut acc: u32 = 0;
    let mut j: usize = start;
    while j < end
        invariant
            start <= j <= end,
            acc <= 101,
            forall|k: int| 0 <= k < j - start ==> is_dec_digit(#[trigger] t[k]),
            spec_dec_value(t.take(j - start)) <= 100 ==> acc == spec_dec_value(t.take(j - start)),
            spec_dec_value(t.take(j - start)) > 100 ==> acc == 101,
        decreases end - j,
    {
        let c = input.get_char(j);
        proof {
            assert(t[j - start] == input@[j as int]);
        }
        let u = c as u32;
        if u < 48 || u > 57 {
            proof {
                assert(!is_dec_digit(t[j - start]));
                assert(!spec_all_digits(t));
            }
            return Err(String::from_str("blend must be a base-10 integer"));
        }
        let d = u - 48;
        proof {
            let prefix = t.take(j - start);
            let np = t.take(j + 1 - start);
            assert(np =~= prefix.push(t[j - start]));
            assert(np.drop_last() =~= prefix);
            assert(spec_dec_value(np) == spec_dec_value(prefix) * 10 + dec_digit_value(t[j
                - start]));
            lemma_dec_value_nonneg(prefix);
        }
        acc = acc * 10 + d;
        if acc > 100 {
            acc = 101;
        }
        j += 1;
    }
    proof {
        assert(t.take(end - start) =~= t);
        assert(spec_all_digits(t));
    }
    if acc <= 100 {
        let b = acc as u8;
        return Ok(Some(b));
    }
    let mut m = String::from_str("blend ");
    m.append(input.substring_char(start, end));
    m.append(" out of range 0..=100");
    proof {
        assert(m@ =~= cause_blend_range(t));
    }
    Err(m)
}

impl ColorSpec {
    /// Parses one specification string: the `link:<target>` form, or up
    /// to five space-separated fields read as foreground, background,
    /// style, special and blend.  Fields cut off by the end of the input
    /// stay absent, exactly as fields written `-`.
    pub fn from_str(input: &str) -> (r: Result<ColorSpec, ParseColorSpecError>)
        ensures
            spec_parse(input@) is Ok ==> r is Ok && view_color_spec(r->Ok_0) == spec_parse(
                input@,
            )->Ok_0,
            spec_parse(input@) is Err ==> r is Err && (r->Err_0).0@ == input@ && (r->Err_0).1@
                == spec_parse(input@)->Err_0,
    {
        let ghost s = input@;
        let n = input.unicode_len();
        if n >= 5 && input.get_char(0) == 'l' && input.get_char(1) == 'i' && input.get_char(2)
            == 'n' && input.get_char(3) == 'k' && input.get_char(4) == ':' {
            proof {
                assert(s.subrange(0, 5) =~= seq!['l', 'i', 'n', 'k', ':']);
            }
            let target = input.substring_char(5, n).to_owned();
            proof {
                assert(target@ =~= s.skip(5));
            }
            return Ok(ColorSpec::Link(target));
        }
        proof {
            if spec_link_form(s) {
                assert(s.subrange(0, 5)[0] == 'l');
                assert(s.subrange(0, 5)[1] == 'i');
                assert(s.subrange(0, 5)[2] == 'n');
                assert(s.subrange(0, 5)[3] == 'k');
                assert(s.subrange(0, 5)[4] == ':');
                assert(false);
            }
        }
        let toks = tokenize(input);
        let ghost st = spec_tokens(s);
        proof {
            assert(st.len() == toks@.len());
            assert(forall|i: int|
                0 <= i < toks@.len() ==> st[i] == s.subrange(
                    (#[trigger] toks@[i]).0 as int,
                    toks@[i].1 as int,
                ));
        }
        if toks.len() > 5 {
            return Err(
                ParseColorSpecError(input.to_owned(), String::from_str("expected at most 5 fields")),
            );
        }
        let fg: Option<Color> = if toks.len() > 0 {
            let p = toks[0];
            match parse_color_token(input, p.0, p.1) {
                Ok(v) => v,
                Err(m) => {
                    return Err(ParseColorSpecError(input.to_owned(), m));
                },
            }
        } else {
            None
        };
        proof {
            let res = spec_color_field(spec_opt_tok(st, 0));
            assert(res is Ok && view_opt_color(fg) == res->Ok_0);
        }
        let bg: Option<Color> = if toks.len() > 1 {
            let p = toks[1];
            match parse_color_token(input, p.0, p.1) {
                Ok(v) => v,
                Err(m) => {
                    return Err(ParseColorSpecError(input.to_owned(), m));
                },
            }
        } else {
            None
        };
        proof {
            let res = spec_color_field(spec_opt_tok(st, 1));
            assert(res is Ok && view_opt_color(bg) == res->Ok_0);
        }
        let style: Option<Style> = if toks.len() > 2 {
            let p = toks[2];
            match parse_style_token(input, p.0, p.1) {
                Ok(v) => v,
                Err(m) => {
                    return Err(ParseColorSpecError(input.to_owned(), m));
                },
            }
        } else {
            None
        };
        proof {
            let res = spec_style_field(spec_opt_tok(st, 2));
            assert(res == Result::<Option<Style>, Seq<char>>::Ok(style));
        }
        let special: Option<Color> = if toks.len() > 3 {
            let p = toks[3];
            match parse_color_token(input, p.0, p.1) {
                Ok(v) => v,
                Err(m) => {
                    return Err(ParseColorSpecError(input.to_owned(), m));
                },
            }
        } else {
            None
        };
        proof {
            let res = spec_color_field(spec_opt_tok(st, 3));
            assert(res is Ok && view_opt_color(special) == res->Ok_0);
        }
        let blend: Option<u8> = if toks.len() > 4 {
            let p = toks[4];
            match parse_blend_token(input, p.0, p.1) {
                Ok(v) => v,
                Err(m) => {
                    return Err(ParseColorSpecError(input.to_owned(), m));
                },
            }
        } else {
            None
        };
        proof {
            let res = spec_blend_field(spec_opt_tok(st, 4));
            assert(res == Result::<Option<u8>, Seq<char>>::Ok(blend));
        }
        Ok(ColorSpec::Color(ColorFormat { fg, bg, style, special, blend }))
    }
}

/// `k` copies of the characters ` -`: explicit absences for `k` fields.
pub open spec fn pad_units(k: int) -> Seq<char>
    decreases k,
{
    if k <= 0 {
        Seq::<char>::empty()
    } else {
        pad_units(k - 1) + seq![' ', '-']
    }
}

/// `k` fields that each hold a single `-`.
pub open spec fn dash_tokens(k: int) -> Seq<Seq<char>>
    decreases k,
{
    if k <= 0 {
        Seq::<Seq<char>>::empty()
    } else {
        dash_tokens(k - 1).push(seq!['-'])
    }
}

/// The input with every field it left unwritten spelled out as an
/// explicit `-`, so that exactly five fields are present.
pub open spec fn spec_padded(s: Seq<char>) -> Seq<char> {
    if s.len() == 0 {
        seq!['-'] + pad_units(4)
    } else {
        s + pad_units(5 - spec_tokens(s).len())
    }
}

/// A single `-` splits into one one-character segment.
proof fn lemma_split_dash()
    ensures
        spec_split(seq!['-']) == seq![seq!['-']],
{
    let s = seq!['-'];
    let d = s.drop_first();
    assert(d =~= Seq::<char>::empty());
    assert(spec_split(d) == seq![Seq::<char>::empty()]);
    assert(s[0] == '-');
    assert(spec_split(s) == spec_split(d).update(0, seq![s[0]] + spec_split(d)[0]));
    assert(seq![s[0]] + Seq::<char>::empty() =~= seq!['-']);
    assert(spec_split(s) =~~= seq![seq!['-']]);
}

/// Appending ` -` to any input appends one `-` segment to its split.
proof fn lemma_split_append_unit(s: Seq<char>)
    ensures
        spec_split(s + seq![' ', '-']) == spec_split(s).push(seq!['-']),
    decreases s.len(),
{
    let u = seq![' ', '-'];
    if s.len() == 0 {
        assert(s + u =~= u);
        assert(u.drop_first() =~= seq!['-']);
        lemma_split_dash();
        assert(spec_split(u) =~~= seq![Seq::<char>::empty()] + seq![seq!['-']]);
        assert(spec_split(s + u) =~~= spec_split(s).push(seq!['-']));
    } else {
        let d = s.drop_first();
        lemma_split_append_unit(d);
        assert((s + u).drop_first() =~= d + u);
        assert((s + u)[0] == s[0]);
        if s[0] == ' ' {
            assert(spec_split(s + u) == seq![Seq::<char>::empty()] + spec_split(d + u));
            assert(spec_split(s + u) =~~= (seq![Seq::<char>::empty()] + spec_split(d)).push(
                seq!['-'],
            ));
            assert(spec_split(s + u) =~~= spec_split(s).push(seq!['-']));
        } else {
            let rest = spec_split(d);
            let restu = spec_split(d + u);
            lemma_split_nonempty(d);
            assert(restu == rest.push(seq!['-']));
            assert(restu[0] == rest[0]);
            assert(spec_split(s + u) == restu.update(0, seq![s[0]] + restu[0]));
            assert(restu.update(0, seq![s[0]] + rest[0]) =~~= rest.update(
                0,
                seq![s[0]] + rest[0],
            ).push(seq!['-']));
            assert(spec_split(s + u) =~~= spec_split(s).push(seq!['-']));
        }
    }
}

/// The length and the characters of the padding.
proof fn lemma_pad_units_props(k: int)
    requires
        k >= 0,
    ensures
        pad_units(k).len() == 2 * k,
        k >= 1 ==> pad_units(k)[0] == ' ',
    decreases k,
{
    if k >= 1 {
        lemma_pad_units_props(k - 1);
    }
}

/// There are `k` dash fields in `dash_tokens(k)`.
proof fn lemma_dash_tokens_len(k: int)
    requires
        k >= 0,
    ensures
        dash_tokens(k).len() == k,
    decreases k,
{
    if k >= 1 {
        lemma_dash_tokens_len(k - 1);
    }
}

/// Appending `k` explicit absences to a non-empty input appends `k`
/// dash fields to its field list.
proof fn lemma_tokens_pad(s: Seq<char>, k: int)
    requires
        s.len() >= 1,
        k >= 0,
    ensures
        spec_tokens(s + pad_units(k)) == spec_tokens(s) + dash_tokens(k),
    decreases k,
{
    if k == 0 {
        assert(s + pad_units(0) =~= s);
        assert(spec_tokens(s) + dash_tokens(0) =~~= spec_tokens(s));
    } else {
        lemma_tokens_pad(s, k - 1);
        lemma_pad_units_props(k - 1);
        let prev = s + pad_units(k - 1);
        assert(s + pad_units(k) =~= prev + seq![' ', '-']);
        lemma_split_append_unit(prev);
        assert(spec_tokens(s + pad_units(k)) =~~= spec_tokens(s) + dash_tokens(k));
    }
}

/// One more explicit absence changes nothing about the parsed fields.
proof fn lemma_fields_push_dash(toks: Seq<Seq<char>>)
    requires
        toks.len() < 5,
    ensures
        spec_fields(toks.push(seq!['-'])) == spec_fields(toks),
{
    let p = toks.push(seq!['-']);
    assert(forall|i: int| 0 <= i < toks.len() ==> p[i] == toks[i]);
    assert(p[toks.len() as int] == seq!['-']);
    assert(seq!['-'].len() == 1 && seq!['-'][0] == '-');
}

/// Explicit absences appended to the fields change nothing about what
/// they parse to.
proof fn lemma_fields_pad(toks: Seq<Seq<char>>, k: int)
    requires
        toks.len() + k <= 5,
        k >= 0,
    ensures
        spec_fields(toks + dash_tokens(k)) == spec_fields(toks),
    decreases k,
{
    if k == 0 {
        assert(toks + dash_tokens(0) =~~= toks);
    } else {
        lemma_dash_tokens_len(k - 1);
        lemma_fields_pad(toks, k - 1);
        assert(toks + dash_tokens(k) =~~= (toks + dash_tokens(k - 1)).push(seq!['-']));
        lemma_fields_push_dash(toks + dash_tokens(k - 1));
    }
}

/// Law: a specification that leaves fields unwritten parses to exactly
/// the same value as the one with every missing field written as an
/// explicit `-`.
pub proof fn lemma_truncated_equals_padded(s: Seq<char>)
    requires
        !spec_link_form(s),
        spec_parse(s) is Ok,
    ensures
        spec_parse(spec_padded(s)) == spec_parse(s),
{
    if s.len() == 0 {
        let base = seq!['-'];
        let p = spec_padded(s);
        lemma_split_dash();
        lemma_tokens_pad(base, 4);
        lemma_dash_tokens_len(4);
        lemma_pad_units_props(4);
        assert(spec_tokens(p).len() == 5);
        assert(p[0] == '-');
        if spec_link_form(p) {
            assert(p.subrange(0, 5)[0] == 'l');
            assert(false);
        }
        assert(spec_tokens(p) =~~= seq![seq!['-']] + dash_tokens(4));
        lemma_fields_pad(seq![seq!['-']], 4);
        assert(spec_fields(seq![seq!['-']]) == spec_fields(spec_tokens(s)));
        assert(spec_parse(p) == spec_parse(s));
    } else {
        let nt = spec_tokens(s).len();
        let k = 5 - nt;
        assert(nt <= 5);
        let p = s + pad_units(k);
        if k == 0 {
            assert(p =~= s);
            assert(spec_padded(s) == p);
        } else {
            lemma_tokens_pad(s, k);
            lemma_dash_tokens_len(k);
            lemma_pad_units_props(k);
            assert(spec_tokens(p).len() == 5);
            if spec_link_form(p) {
                if s.len() >= 5 {
                    assert(p.subrange(0, 5) =~= s.subrange(0, 5));
                    assert(spec_link_form(s));
                    assert(false);
                } else {
                    assert(p[s.len() as int] == pad_units(k)[0]);
                    assert(p.subrange(0, 5)[s.len() as int] == ' ');
                    assert(false);
                }
            }
            lemma_fields_pad(spec_tokens(s), k);
            assert(spec_parse(p) == spec_parse(s));
        }
    }
}

/// Law: a specification that starts with `link:` always parses to a
/// link to everything after the colon, whatever that content is.
pub proof fn lemma_link_always_parses(target: Seq<char>)
    ensures
        spec_parse(seq!['l', 'i', 'n', 'k', ':'] + target) == Result::<
            ColorSpecModel,
            Seq<char>,
        >::Ok(ColorSpecModel::Link(target)),
{
    let s = seq!['l', 'i', 'n', 'k', ':'] + target;
    assert(s.subrange(0, 5) =~= seq!['l', 'i', 'n', 'k', ':']);
    assert(s.skip(5) =~= target);
}

/// Law: a non-link specification whose style field holds any character
/// that neither names a style attribute nor is the `-` marker fails to
/// parse.
pub proof fn lemma_bad_style_char_fails(s: Seq<char>, j: int)
    requires
        !spec_link_form(s),
        spec_tokens(s).len() >= 3,
        0 <= j < spec_tokens(s)[2].len(),
        !is_style_char(spec_tokens(s)[2][j]),
        spec_tokens(s)[2][j] != '-',
    ensures
        spec_parse(s) is Err,
{
    if spec_tokens(s).len() <= 5 {
        let t = spec_tokens(s)[2];
        assert(!(t.len() == 1 && t[0] == '-'));
        assert(!spec_all_style(t));
        assert(spec_style_field(spec_opt_tok(spec_tokens(s), 2)) is Err);
    }
}

impl ParseColorSpecError {
    /// The human-readable description of the error.
    pub fn message(&self) -> (r: String)
        ensures
            r@ == "failed to parse \""@ + self.0@ + "\" with error \""@ + self.1@ + "\""@,
    {
        let mut out = String::from_str("failed to parse \"");
        out.append(self.0.as_str());
        out.append("\" with error \"");
        out.append(self.1.as_str());
        out.append("\"");
        out
    }
}

/// The rendering of a color field: a quoted literal, or an index into
/// the palette table `c`.
pub open spec fn spec_render_color(c: Color) -> Seq<char> {
    match c {
        Color::Color(rgb) => "'"@ + spec_render_rgb(rgb) + "'"@,
        Color::PaletteRef(name) => "c."@ + name@,
    }
}

impl Color {
    /// Renders the field as a Lua expression: a literal becomes a quoted
    /// string, a palette reference a lookup in the palette table `c`.
    pub fn render(&self) -> (r: String)
        ensures
            r@ == spec_render_color(*self),
    {
        match self {
            Color::Color(rgb) => {
                let mut out = String::from_str("'");
                out.append(rgb.render().as_str());
                out.append("'");
                out
            },
            Color::PaletteRef(name) => {
                let mut out = String::from_str("c.");
                out.append(name.as_str());
                out
            },
        }
    }
}

} // verus!
