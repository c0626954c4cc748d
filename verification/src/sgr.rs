//! Interpretation of SGR (select graphic rendition) parameter lists.
//!
//! A CSI sequence ending in `m` carries a semicolon-separated list of numeric
//! codes. Each code updates the persistent [`Style`]: attribute bits are set
//! or cleared, foreground and background colours are chosen, and code `0`
//! resets everything. Unrecognised codes are ignored.
use vstd::prelude::*;

use crate::style::{AttrSet, Color, Style};

verus! {

pub open spec fn spec_is_digit(c: char) -> bool {
    48 <= c as u32 <= 57
}

pub open spec fn spec_digit_val(c: char) -> nat {
    (c as u32 - 48) as nat
}

pub open spec fn all_digits(s: Seq<char>) -> bool {
    forall|i: int| 0 <= i < s.len() ==> spec_is_digit(#[trigger] s[i])
}

/// Numeric value of a digit string, most significant digit first.
pub open spec fn digits_val(s: Seq<char>) -> nat
    decreases s.len(),
{
    if s.len() == 0 {
        0
    } else {
        digits_val(s.drop_last()) * 10 + spec_digit_val(s.last())
    }
}

/// What `str::parse::<u8>` accepts: an optional leading `+`, then one or
/// more decimal digits whose value fits in a byte.
pub open spec fn parse_u8_spec(s: Seq<char>) -> Option<u8> {
    let t = if s.len() > 0 && s[0] == '+' {
        s.drop_first()
    } else {
        s
    };
    if t.len() == 0 || !all_digits(t) {
        None
    } else if digits_val(t) > 255 {
        None
    } else {
        Some(digits_val(t) as u8)
    }
}

pub open spec fn opt_to_seq(o: Option<u8>) -> Seq<u8> {
    match o {
        Some(v) => seq![v],
        None => Seq::empty(),
    }
}

/// Splitting the parameter text on `;` and parsing each piece, dropping the
/// pieces that do not parse. Written as a left fold over the remaining text,
/// with the piece built so far and the codes already produced.
pub open spec fn parse_params_loop(s: Seq<char>, cur: Seq<char>, acc: Seq<u8>) -> Seq<u8>
    decreases s.len(),
{
    if s.len() == 0 {
        acc + opt_to_seq(parse_u8_spec(cur))
    } else if s[0] == ';' {
        parse_params_loop(s.drop_first(), Seq::empty(), acc + opt_to_seq(parse_u8_spec(cur)))
    } else {
        parse_params_loop(s.drop_first(), cur.push(s[0]), acc)
    }
}

pub open spec fn spec_parse_params(s: Seq<char>) -> Seq<u8> {
    parse_params_loop(s, Seq::empty(), Seq::empty())
}

/// The standard foreground/background palette, codes 30-37 and 40-47.
pub open spec fn std_color(n: u8) -> Color {
    if n == 0 {
        Color::Black
    } else if n == 1 {
        Color::Red
    } else if n == 2 {
        Color::Green
    } else if n == 3 {
        Color::Yellow
    } else if n == 4 {
        Color::Blue
    } else if n == 5 {
        Color::Magenta
    } else if n == 6 {
        Color::Cyan
    } else {
        Color::White
    }
}

/// The bright palette, codes 90-97 and 100-107.
pub open spec fn bright_color(n: u8) -> Color {
    if n == 0 {
        Color::DarkGray
    } else if n == 1 {
        Color::LightRed
    } else if n == 2 {
        Color::LightGreen
    } else if n == 3 {
        Color::LightYellow
    } else if n == 4 {
        Color::LightBlue
    } else if n == 5 {
        Color::LightMagenta
    } else if n == 6 {
        Color::LightCyan
    } else {
        Color::Gray
    }
}

/// Effect of a single code other than the extended-colour introducers 38/48.
pub open spec fn apply_one(c: u8, st: Style) -> Style {
    if c == 0 {
        Style::spec_reset()
    } else if c == 1 {
        Style { attrs: AttrSet { bold: true, ..st.attrs }, ..st }
    } else if c == 2 {
        Style { attrs: AttrSet { dim: true, ..st.attrs }, ..st }
    } else if c == 3 {
        Style { attrs: AttrSet { italic: true, ..st.attrs }, ..st }
    } else if c == 4 {
        Style { attrs: AttrSet { underline: true, ..st.attrs }, ..st }
    } else if c == 5 || c == 6 {
        Style { attrs: AttrSet { blink: true, ..st.attrs }, ..st }
    } else if c == 7 {
        Style { attrs: AttrSet { reverse: true, ..st.attrs }, ..st }
    } else if c == 8 {
        Style { attrs: AttrSet { hidden: true, ..st.attrs }, ..st }
    } else if c == 9 {
        Style { attrs: AttrSet { strike: true, ..st.attrs }, ..st }
    } else if c == 22 {
        Style { attrs: AttrSet { bold: false, dim: false, ..st.attrs }, ..st }
    } else if c == 23 {
        Style { attrs: AttrSet { italic: false, ..st.attrs }, ..st }
    } else if c == 24 {
        Style { attrs: AttrSet { underline: false, ..st.attrs }, ..st }
    } else if c == 25 {
        Style { attrs: AttrSet { blink: false, ..st.attrs }, ..st }
    } else if c == 27 {
        Style { attrs: AttrSet { reverse: false, ..st.attrs }, ..st }
    } else if c == 28 {
        Style { attrs: AttrSet { hidden: false, ..st.attrs }, ..st }
    } else if c == 29 {
        Style { attrs: AttrSet { strike: false, ..st.attrs }, ..st }
    } else if 30 <= c && c <= 37 {
        Style { fg: Some(std_color((c - 30) as u8)), ..st }
    } else if c == 39 {
        Style { fg: None, ..st }
    } else if 40 <= c && c <= 47 {
        Style { bg: Some(std_color((c - 40) as u8)), ..st }
    } else if c == 49 {
        Style { bg: None, ..st }
    } else if 90 <= c && c <= 97 {
        Style { fg: Some(bright_color((c - 90) as u8)), ..st }
    } else if 100 <= c && c <= 107 {
        Style { bg: Some(bright_color((c - 100) as u8)), ..st }
    } else {
        st
    }
}

/// Effect of a whole code list. `38`/`48` expect `5;N` (indexed) or
/// `2;R;G;B` (direct colour) to follow; with neither in reach, only the
/// introducer itself is consumed, as a scan over the list with a cursor
/// would do.
pub open spec fn apply_codes(codes: Seq<u8>, st: Style) -> Style
    decreases codes.len(),
{
    if codes.len() == 0 {
        st
    } else {
        let c = codes[0];
        if c == 38 || c == 48 {
            if codes.len() >= 3 && codes[1] == 5 {
                let col = Color::Indexed(codes[2]);
                let st2 = if c == 38 {
                    Style { fg: Some(col), ..st }
                } else {
                    Style { bg: Some(col), ..st }
                };
                apply_codes(codes.skip(3), st2)
            } else if codes.len() >= 5 && codes[1] == 2 {
                let col = Color::Rgb(codes[2], codes[3], codes[4]);
                let st2 = if c == 38 {
                    Style { fg: Some(col), ..st }
                } else {
                    Style { bg: Some(col), ..st }
                };
                apply_codes(codes.skip(5), st2)
            } else {
                apply_codes(codes.skip(1), st)
            }
        } else {
            apply_codes(codes.skip(1), apply_one(c, st))
        }
    }
}

/// Effect of one full SGR parameter list on the style. An empty list and the
/// bare `0` reset outright; anything else is split, parsed and applied.
pub open spec fn apply_sgr_spec(params: Seq<char>, st: Style) -> Style {
    if params.len() == 0 || params =~= seq!['0'] {
        Style::spec_reset()
    } else {
        apply_codes(spec_parse_params(params), st)
    }
}

/// Parse one semicolon-free piece as `str::parse::<u8>` would.
fn parse_u8_piece(cur: &Vec<char>) -> (r: Option<u8>)
    ensures
        r == parse_u8_spec(cur@),
{
    let ghost s = cur@;
    let mut j: usize = 0;
    if cur.len() > 0 && cur[0] == '+' {
        j = 1;
    }
    let ghost t = if s.len() > 0 && s[0] == '+' {
        s.drop_first()
    } else {
        s
    };
    assert(t =~= s.skip(j as int));
    if j == cur.len() {
        assert(t.len() == 0);
        return None;
    }
    let mut val: u32 = 0;
    let mut too_big: bool = false;
    let ghost start = j as int;
    while j < cur.len()
        invariant
            start <= j <= cur.len(),
            s == cur@,
            t == s.skip(start),
            t == (if s.len() > 0 && s[0] == '+' {
                s.drop_first()
            } else {
                s
            }),
            0 <= start <= j,
            all_digits(t.take(j - start)),
            !too_big ==> val == digits_val(t.take(j - start)) && val <= 255,
            too_big ==> digits_val(t.take(j - start)) > 255,
        decreases cur.len() - j,
    {
        let c = cur[j];
        let cv = c as u32;
        if cv < 48 || cv > 57 {
            assert(!spec_is_digit(t[j - start]));
            assert(!all_digits(t));
            return None;
        }
        proof {
            assert(t.take(j + 1 - start).drop_last() =~= t.take(j - start));
            assert(t.take(j + 1 - start).last() == t[j - start]);
        }
        if too_big {
            proof {
                lemma_digits_val_grows(t.take(j + 1 - start));
            }
        } else {
            let d = cv - 48;
            if val * 10 + d > 255 {
                too_big = true;
                val = 0;
            } else {
                val = val * 10 + d;
            }
        }
        j = j + 1;
    }
    assert(t.take(j - start) =~= t);
    if too_big {
        None
    } else {
        Some(val as u8)
    }
}

/// Appending a digit never shrinks the value.
pub proof fn lemma_digits_val_grows(s: Seq<char>)
    requires
        s.len() > 0,
    ensures
        digits_val(s) >= digits_val(s.drop_last()),
{
}

/// Split the accumulated parameter characters on `;` and parse each piece.
fn parse_params(params: &Vec<char>) -> (codes: Vec<u8>)
    ensures
        codes@ == spec_parse_params(params@),
{
    let mut codes: Vec<u8> = Vec::new();
    let mut cur: Vec<char> = Vec::new();
    let mut i: usize = 0;
    proof {
        assert(params@.skip(0) =~= params@);
    }
    while i < params.len()
        invariant
            0 <= i <= params.len(),
            spec_parse_params(params@) == parse_params_loop(params@.skip(i as int), cur@, codes@),
        decreases params.len() - i,
    {
        let c = params[i];
        proof {
            assert(params@.skip(i as int)[0] == params@[i as int]);
            assert(params@.skip(i as int).drop_first() =~= params@.skip(i + 1));
        }
        if c == ';' {
            let ghost acc0 = codes@;
            let ghost cur0 = cur@;
            match parse_u8_piece(&cur) {
                Some(v) => {
                    codes.push(v);
                },
                None => {},
            }
            proof {
                assert(codes@ =~= acc0 + opt_to_seq(parse_u8_spec(cur0)));
            }
            cur = Vec::new();
        } else {
            cur.push(c);
        }
        i = i + 1;
    }
    assert(params@.skip(i as int) =~= Seq::<char>::empty());
    let ghost acc0 = codes@;
    let ghost cur0 = cur@;
    match parse_u8_piece(&cur) {
        Some(v) => {
            codes.push(v);
        },
        None => {},
    }
    proof {
        assert(codes@ =~= acc0 + opt_to_seq(parse_u8_spec(cur0)));
    }
    codes
}

/// Apply one SGR parameter list to the style in place.
pub fn apply_sgr(params: &Vec<char>, style: &mut Style)
    ensures
        *final(style) == apply_sgr_spec(params@, *old(style)),
{
    if params.len() == 0 || (params.len() == 1 && params[0] == '0') {
        proof {
            if params@.len() == 1 && params@[0] == '0' {
                assert(params@ =~= seq!['0']);
            }
        }
        *style = Style::reset();
        return;
    }
    let codes = parse_params(params);
    let mut i: usize = 0;
    let ghost st0 = *style;
    proof {
        assert(codes@.skip(0) =~= codes@);
    }
    while i < codes.len()
        invariant
            0 <= i <= codes.len(),
            apply_codes(codes@, st0) == apply_codes(codes@.skip(i as int), *style),
        decreases codes.len() - i,
    {
        let c = codes[i];
        let ghost rem = codes@.skip(i as int);
        proof {
            assert(rem[0] == codes@[i as int]);
            assert(rem.drop_first() =~= codes@.skip(i + 1));
        }
        if c == 38 || c == 48 {
            if codes.len() - i > 2 && codes[i + 1] == 5 {
                proof {
                    assert(rem[1] == codes@[i + 1]);
                    assert(rem[2] == codes@[i + 2]);
                    assert(rem.skip(3) =~= codes@.skip(i + 3));
                }
                let col = Color::Indexed(codes[i + 2]);
                if c == 38 {
                    style.fg = Some(col);
                } else {
                    style.bg = Some(col);
                }
                i = i + 3;
            } else if codes.len() - i > 4 && codes[i + 1] == 2 {
                proof {
                    assert(rem[1] == codes@[i + 1]);
                    assert(rem[2] == codes@[i + 2]);
                    assert(rem[3] == codes@[i + 3]);
                    assert(rem[4] == codes@[i + 4]);
                    assert(rem.skip(5) =~= codes@.skip(i + 5));
                }
                let col = Color::Rgb(codes[i + 2], codes[i + 3], codes[i + 4]);
                if c == 38 {
                    style.fg = Some(col);
                } else {
                    style.bg = Some(col);
                }
                i = i + 5;
            } else {
                i = i + 1;
            }
        } else {
            *style = apply_one_exec(c, *style);
            i = i + 1;
        }
    }
    assert(codes@.skip(i as int) =~= Seq::<u8>::empty());
}

/// Executable twin of [`apply_one`].
fn apply_one_exec(c: u8, st: Style) -> (r: Style)
    ensures
        r == apply_one(c, st),
{
    if c == 0 {
        Style::reset()
    } else if c == 1 {
        Style { attrs: AttrSet { bold: true, ..st.attrs }, ..st }
    } else if c == 2 {
        Style { attrs: AttrSet { dim: true, ..st.attrs }, ..st }
    } else if c == 3 {
        Style { attrs: AttrSet { italic: true, ..st.attrs }, ..st }
    } else if c == 4 {
        Style { attrs: AttrSet { underline: true, ..st.attrs }, ..st }
    } else if c == 5 || c == 6 {
        Style { attrs: AttrSet { blink: true, ..st.attrs }, ..st }
    } else if c == 7 {
        Style { attrs: AttrSet { reverse: true, ..st.attrs }, ..st }
    } else if c == 8 {
        Style { attrs: AttrSet { hidden: true, ..st.attrs }, ..st }
    } else if c == 9 {
        Style { attrs: AttrSet { strike: true, ..st.attrs }, ..st }
    } else if c == 22 {
        Style { attrs: AttrSet { bold: false, dim: false, ..st.attrs }, ..st }
    } else if c == 23 {
        Style { attrs: AttrSet { italic: false, ..st.attrs }, ..st }
    } else if c == 24 {
        Style { attrs: AttrSet { underline: false, ..st.attrs }, ..st }
    } else if c == 25 {
        Style { attrs: AttrSet { blink: false, ..st.attrs }, ..st }
    } else if c == 27 {
        Style { attrs: AttrSet { reverse: false, ..st.attrs }, ..st }
    } else if c == 28 {
        Style { attrs: AttrSet { hidden: false, ..st.attrs }, ..st }
    } else if c == 29 {
        Style { attrs: AttrSet { strike: false, ..st.attrs }, ..st }
    } else if 30 <= c && c <= 37 {
        Style { fg: Some(std_color_exec(c - 30)), ..st }
    } else if c == 39 {
        Style { fg: None, ..st }
    } else if 40 <= c && c <= 47 {
        Style { bg: Some(std_color_exec(c - 40)), ..st }
    } else if c == 49 {
        Style { bg: None, ..st }
    } else if 90 <= c && c <= 97 {
        Style { fg: Some(bright_color_exec(c - 90)), ..st }
    } else if 100 <= c && c <= 107 {
        Style { bg: Some(bright_color_exec(c - 100)), ..st }
    } else {
        st
    }
}

fn std_color_exec(n: u8) -> (r: Color)
    ensures
        r == std_color(n),
{
    if n == 0 {
        Color::Black
    } else if n == 1 {
        Color::Red
    } else if n == 2 {
        Color::Green
    } else if n == 3 {
        Color::Yellow
    } else if n == 4 {
        Color::Blue
    } else if n == 5 {
        Color::Magenta
    } else if n == 6 {
        Color::Cyan
    } else {
        Color::White
    }
}

fn bright_color_exec(n: u8) -> (r: Color)
    ensures
        r == bright_color(n),
{
    if n == 0 {
        Color::DarkGray
    } else if n == 1 {
        Color::LightRed
    } else if n == 2 {
        Color::LightGreen
    } else if n == 3 {
        Color::LightYellow
    } else if n == 4 {
        Color::LightBlue
    } else if n == 5 {
        Color::LightMagenta
    } else if n == 6 {
        Color::LightCyan
    } else {
        Color::Gray
    }
}

} // verus!
