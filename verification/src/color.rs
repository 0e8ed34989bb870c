//! The grammar of colour literals.
//!
//! A colour is written as `#` and hex digits, or as `rgb(..)`, `rgba(..)`,
//! `hsl(..)` or `hsla(..)` with parts between commas. The grammar reads a
//! literal that is trimmed and in lower case, and names the first rule that
//! the literal breaks.
//!
//! Whether an alpha part writes a number between 0 and 1 is a question of
//! floating point numbers, which this crate does not hold: the answer comes
//! from a test that the caller hands in.

use crate::chars::{
    ascii_hex_digit,
    bounded_literal,
    chars_of,
    find_from,
    is_ascii_hex_digit,
    lemma_position,
    parse_unsigned,
    split_on,
    string_of,
    trim,
    trimmed,
    unicode_lowercase,
    utf8_len,
    utf8_len_is,
};
use vstd::prelude::*;

verus! {

/// The four forms of a colour literal that are written like a call.
#[derive(Clone, Copy, Debug, PartialEq, Eq, Structural)]
pub enum ColorForm {
    Rgb,
    Rgba,
    Hsl,
    Hsla,
}

/// The rule that a colour literal breaks.
#[derive(Clone, Copy, Debug, PartialEq, Eq, Structural)]
pub enum ColorFault {
    /// The literal has none of the five forms.
    Unknown,
    /// A hex colour does not start with `#`.
    HexPrefix,
    /// A hex colour does not have 3, 4, 6 or 8 digits.
    HexLength,
    /// A hex colour holds a character that is no hex digit.
    HexDigit,
    /// The literal does not start with the form's name and `(`.
    Opening(ColorForm),
    /// The literal does not end with `)`.
    Unclosed(ColorForm),
    /// The literal has more or fewer parts than the form takes.
    Parts(ColorForm),
    /// A red, green or blue part is no number.
    Number,
    /// A red, green or blue part is above 255.
    RgbBound,
    /// A percentage does not end with `%`.
    PercentSign,
    /// What stands before the `%` is no number.
    Percent,
    /// A percentage is above 100.
    PercentBound,
    /// A hue is no number.
    Hue,
    /// A hue is above 360.
    HueBound,
    /// An alpha part is no number between 0 and 1.
    Alpha,
}

/// The wording of a broken colour rule.
pub open spec fn color_text(fault: ColorFault) -> Seq<char> {
    match fault {
        ColorFault::Unknown => "invalid color value"@,
        ColorFault::HexPrefix => "hex color must start with #"@,
        ColorFault::HexLength => "hex color must be 3, 4, 6, or 8 hex digits"@,
        ColorFault::HexDigit => "hex color contains invalid characters"@,
        ColorFault::Opening(ColorForm::Rgb) => "rgb color must start with rgb("@,
        ColorFault::Opening(ColorForm::Rgba) => "rgba color must start with rgba("@,
        ColorFault::Opening(ColorForm::Hsl) => "hsl color must start with hsl("@,
        ColorFault::Opening(ColorForm::Hsla) => "hsla color must start with hsla("@,
        ColorFault::Unclosed(ColorForm::Rgb) => "unclosed rgb color"@,
        ColorFault::Unclosed(ColorForm::Rgba) => "unclosed rgba color"@,
        ColorFault::Unclosed(ColorForm::Hsl) => "unclosed hsl color"@,
        ColorFault::Unclosed(ColorForm::Hsla) => "unclosed hsla color"@,
        ColorFault::Parts(ColorForm::Rgb) => "invalid rgb color"@,
        ColorFault::Parts(ColorForm::Rgba) => "invalid rgba color"@,
        ColorFault::Parts(ColorForm::Hsl) => "invalid hsl color"@,
        ColorFault::Parts(ColorForm::Hsla) => "invalid hsla color"@,
        ColorFault::Number => "invalid number"@,
        ColorFault::RgbBound => "rgb exceeded 255 bound"@,
        ColorFault::PercentSign => "missing % sign"@,
        ColorFault::Percent => "invalid percent"@,
        ColorFault::PercentBound => "percent > 100"@,
        ColorFault::Hue => "invalid hue"@,
        ColorFault::HueBound => "hue must not be greater than 360"@,
        ColorFault::Alpha => "invalid alpha"@,
    }
}

/// The wording of a broken colour rule.
pub fn color_message(fault: ColorFault) -> (message: &'static str)
    ensures
        message@ == color_text(fault),
{
    match fault {
        ColorFault::Unknown => "invalid color value",
        ColorFault::HexPrefix => "hex color must start with #",
        ColorFault::HexLength => "hex color must be 3, 4, 6, or 8 hex digits",
        ColorFault::HexDigit => "hex color contains invalid characters",
        ColorFault::Opening(ColorForm::Rgb) => "rgb color must start with rgb(",
        ColorFault::Opening(ColorForm::Rgba) => "rgba color must start with rgba(",
        ColorFault::Opening(ColorForm::Hsl) => "hsl color must start with hsl(",
        ColorFault::Opening(ColorForm::Hsla) => "hsla color must start with hsla(",
        ColorFault::Unclosed(ColorForm::Rgb) => "unclosed rgb color",
        ColorFault::Unclosed(ColorForm::Rgba) => "unclosed rgba color",
        ColorFault::Unclosed(ColorForm::Hsl) => "unclosed hsl color",
        ColorFault::Unclosed(ColorForm::Hsla) => "unclosed hsla color",
        ColorFault::Parts(ColorForm::Rgb) => "invalid rgb color",
        ColorFault::Parts(ColorForm::Rgba) => "invalid rgba color",
        ColorFault::Parts(ColorForm::Hsl) => "invalid hsl color",
        ColorFault::Parts(ColorForm::Hsla) => "invalid hsla color",
        ColorFault::Number => "invalid number",
        ColorFault::RgbBound => "rgb exceeded 255 bound",
        ColorFault::PercentSign => "missing % sign",
        ColorFault::Percent => "invalid percent",
        ColorFault::PercentBound => "percent > 100",
        ColorFault::Hue => "invalid hue",
        ColorFault::HueBound => "hue must not be greater than 360",
        ColorFault::Alpha => "invalid alpha",
    }
}

/// The verdict of a chain of checks: the first error, if there is one.
pub open spec fn first_error(
    first: Result<(), ColorFault>,
    rest: Result<(), ColorFault>,
) -> Result<(), ColorFault> {
    if first is Err {
        first
    } else {
        rest
    }
}

/// Whether `text` begins with `prefix`.
pub open spec fn starts_with(text: Seq<char>, prefix: Seq<char>) -> bool {
    prefix.len() <= text.len() && text.take(prefix.len() as int) == prefix
}

/// What follows `prefix` in `text`, if `text` begins with it.
pub fn strip_prefix<'a>(text: &'a [char], prefix: &str) -> (rest: Option<&'a [char]>)
    ensures
        rest is Some <==> starts_with(text@, prefix@),
        rest matches Some(r) ==> r@ == text@.skip(prefix@.len() as int),
{
    let wanted = chars_of(prefix);
    if wanted.len() > text.len() {
        return None;
    }
    let mut i: usize = 0;
    while i < wanted.len()
        invariant
            i <= wanted.len() <= text.len(),
            wanted@ == prefix@,
            text@.take(i as int) == wanted@.take(i as int),
        decreases wanted.len() - i,
    {
        if text[i] != wanted[i] {
            proof {
                assert(text@.take(wanted.len() as int)[i as int] != wanted@[i as int]);
            }
            return None;
        }
        proof {
            assert(text@.take(i + 1) == text@.take(i as int).push(text@[i as int]));
            assert(wanted@.take(i + 1) == wanted@.take(i as int).push(wanted@[i as int]));
        }
        i = i + 1;
    }
    proof {
        assert(wanted@.take(wanted.len() as int) == wanted@);
        assert(text@.skip(wanted.len() as int) == text@.subrange(
            wanted.len() as int,
            text.len() as int,
        ));
    }
    Some(&text[wanted.len()..text.len()])
}

/// What stands before a closing `last`, if `text` ends with it.
pub fn strip_last<'a>(text: &'a [char], last: char) -> (rest: Option<&'a [char]>)
    ensures
        rest is Some <==> text@.len() > 0 && text@.last() == last,
        rest matches Some(r) ==> r@ == text@.drop_last(),
{
    if text.len() > 0 && text[text.len() - 1] == last {
        Some(&text[0..text.len() - 1])
    } else {
        None
    }
}

/// The pieces of `s` between occurrences of `sep`, each without the
/// whitespace at its ends.
pub open spec fn trimmed_pieces(s: Seq<char>, sep: char) -> Seq<Seq<char>> {
    split_on(s, sep).map_values(|piece: Seq<char>| trimmed(piece))
}

/// What the slices of a list hold.
pub open spec fn views(parts: Seq<&[char]>) -> Seq<Seq<char>> {
    parts.map_values(|part: &[char]| part@)
}

/// Splits `s` at every `sep` and trims each piece.
pub fn split_trimmed<'a>(s: &'a [char], sep: char) -> (parts: Vec<&'a [char]>)
    ensures
        views(parts@) == trimmed_pieces(s@, sep),
{
    let mut parts: Vec<&'a [char]> = Vec::new();
    let mut start: usize = 0;
    proof {
        assert(s@.skip(0) == s@);
        assert(views(parts@) + trimmed_pieces(s@, sep) == trimmed_pieces(s@, sep));
    }
    loop
        invariant
            start <= s.len(),
            trimmed_pieces(s@, sep) == views(parts@) + trimmed_pieces(s@.skip(start as int), sep),
        decreases s.len() - start,
    {
        let end: usize = find_from(s, sep, start);
        let ghost rest = s@.skip(start as int);
        let ghost before = parts@;
        proof {
            lemma_position(rest, sep);
            assert(rest.take(end - start) == s@.subrange(start as int, end as int));
        }
        let piece = trim(&s[start..end]);
        parts.push(piece);
        proof {
            assert(views(parts@) == views(before).push(trimmed(rest.take(end - start))));
        }
        if end == s.len() {
            proof {
                assert(rest.take(end - start) == rest);
                assert(split_on(rest, sep) == seq![rest]);
                assert(trimmed_pieces(rest, sep) == seq![trimmed(rest)]);
            }
            return parts;
        }
        proof {
            let tail = split_on(rest.skip(end - start + 1), sep);
            assert(split_on(rest, sep) == seq![rest.take(end - start)] + tail);
            assert(rest.skip(end - start + 1) == s@.skip(end + 1));
            assert(trimmed_pieces(rest, sep) == seq![trimmed(rest.take(end - start))]
                + trimmed_pieces(s@.skip(end + 1), sep));
        }
        start = end + 1;
    }
}

/// A percentage: a number from 0 to 100 that fits in eight bits, then `%`.
pub open spec fn percentage(part: Seq<char>) -> Result<(), ColorFault> {
    if part.len() == 0 || part.last() != '%' {
        Err(ColorFault::PercentSign)
    } else {
        match bounded_literal(part.drop_last(), 255) {
            None => Err(ColorFault::Percent),
            Some(n) => if n > 100 {
                Err(ColorFault::PercentBound)
            } else {
                Ok(())
            },
        }
    }
}

/// A red, green or blue part: a percentage where it ends with `%`, else a
/// number from 0 to 255 that fits in sixteen bits.
pub open spec fn rgb_component(part: Seq<char>) -> Result<(), ColorFault> {
    if part.len() > 0 && part.last() == '%' {
        percentage(part)
    } else {
        match bounded_literal(part, 65535) {
            None => Err(ColorFault::Number),
            Some(n) => if n > 255 {
                Err(ColorFault::RgbBound)
            } else {
                Ok(())
            },
        }
    }
}

/// A hue: a number from 0 to 360 that fits in sixteen bits.
pub open spec fn hue(part: Seq<char>) -> Result<(), ColorFault> {
    match bounded_literal(part, 65535) {
        None => Err(ColorFault::Hue),
        Some(n) => if n > 360 {
            Err(ColorFault::HueBound)
        } else {
            Ok(())
        },
    }
}

/// An alpha part: one of the texts that write a number between 0 and 1.
/// Which texts do is not decided here: `alphas` is the set of them.
pub open spec fn alpha_value(part: Seq<char>, alphas: Set<Seq<char>>) -> Result<(), ColorFault> {
    if alphas.contains(part) {
        Ok(())
    } else {
        Err(ColorFault::Alpha)
    }
}

/// Whether every character of `s` is an ASCII hex digit.
pub open spec fn hex_digits(s: Seq<char>) -> bool {
    forall|i: int| 0 <= i < s.len() ==> ascii_hex_digit(#[trigger] s[i])
}

/// A hex colour: `#`, then hex digits that take 3, 4, 6 or 8 bytes.
pub open spec fn hex_color(text: Seq<char>) -> Result<(), ColorFault> {
    if text.len() == 0 || text[0] != '#' {
        Err(ColorFault::HexPrefix)
    } else {
        let digits = text.skip(1);
        let n = utf8_len(digits);
        if !(n == 3 || n == 4 || n == 6 || n == 8) {
            Err(ColorFault::HexLength)
        } else if !hex_digits(digits) {
            Err(ColorFault::HexDigit)
        } else {
            Ok(())
        }
    }
}

/// How a form opens.
pub open spec fn opening(form: ColorForm) -> Seq<char> {
    match form {
        ColorForm::Rgb => "rgb("@,
        ColorForm::Rgba => "rgba("@,
        ColorForm::Hsl => "hsl("@,
        ColorForm::Hsla => "hsla("@,
    }
}

/// What stands between the opening of a form and the closing `)`.
pub open spec fn form_body(form: ColorForm, text: Seq<char>) -> Result<Seq<char>, ColorFault> {
    if !starts_with(text, opening(form)) {
        Err(ColorFault::Opening(form))
    } else {
        let body = text.skip(opening(form).len() as int);
        if body.len() == 0 || body.last() != ')' {
            Err(ColorFault::Unclosed(form))
        } else {
            Ok(body.drop_last())
        }
    }
}

/// The verdict on the parts of an `rgb(..)` literal: three parts, each a
/// red, green or blue part.
pub open spec fn rgb_parts(parts: Seq<Seq<char>>) -> Result<(), ColorFault> {
    if parts.len() != 3 {
        Err(ColorFault::Parts(ColorForm::Rgb))
    } else {
        first_error(
            rgb_component(parts[0]),
            first_error(rgb_component(parts[1]), rgb_component(parts[2])),
        )
    }
}

/// The verdict on the parts of an `rgba(..)` literal: four parts, three as
/// in `rgb(..)` and an alpha part.
pub open spec fn rgba_parts(parts: Seq<Seq<char>>, alphas: Set<Seq<char>>) -> Result<
    (),
    ColorFault,
> {
    if parts.len() != 4 {
        Err(ColorFault::Parts(ColorForm::Rgba))
    } else {
        first_error(
            rgb_component(parts[0]),
            first_error(
                rgb_component(parts[1]),
                first_error(rgb_component(parts[2]), alpha_value(parts[3], alphas)),
            ),
        )
    }
}

/// The verdict on the parts of an `hsl(..)` literal: three parts, a hue and
/// two percentages.
pub open spec fn hsl_parts(parts: Seq<Seq<char>>) -> Result<(), ColorFault> {
    if parts.len() != 3 {
        Err(ColorFault::Parts(ColorForm::Hsl))
    } else {
        first_error(hue(parts[0]), first_error(percentage(parts[1]), percentage(parts[2])))
    }
}

/// The verdict on the parts of an `hsla(..)` literal: four parts, three as
/// in `hsl(..)` and an alpha part.
pub open spec fn hsla_parts(parts: Seq<Seq<char>>, alphas: Set<Seq<char>>) -> Result<
    (),
    ColorFault,
> {
    if parts.len() != 4 {
        Err(ColorFault::Parts(ColorForm::Hsla))
    } else {
        first_error(
            hue(parts[0]),
            first_error(
                percentage(parts[1]),
                first_error(percentage(parts[2]), alpha_value(parts[3], alphas)),
            ),
        )
    }
}

/// The parts of a literal's body: the pieces between commas, each trimmed.
pub open spec fn parts_of(body: Seq<char>) -> Seq<Seq<char>> {
    trimmed_pieces(body, ',')
}

/// The verdict on a literal as an `rgb(..)` colour.
pub open spec fn rgb_color(text: Seq<char>) -> Result<(), ColorFault> {
    match form_body(ColorForm::Rgb, text) {
        Err(fault) => Err(fault),
        Ok(body) => rgb_parts(parts_of(body)),
    }
}

/// The verdict on a literal as an `rgba(..)` colour.
pub open spec fn rgba_color(text: Seq<char>, alphas: Set<Seq<char>>) -> Result<(), ColorFault> {
    match form_body(ColorForm::Rgba, text) {
        Err(fault) => Err(fault),
        Ok(body) => rgba_parts(parts_of(body), alphas),
    }
}

/// The verdict on a literal as an `hsl(..)` colour.
pub open spec fn hsl_color(text: Seq<char>) -> Result<(), ColorFault> {
    match form_body(ColorForm::Hsl, text) {
        Err(fault) => Err(fault),
        Ok(body) => hsl_parts(parts_of(body)),
    }
}

/// The verdict on a literal as an `hsla(..)` colour.
pub open spec fn hsla_color(text: Seq<char>, alphas: Set<Seq<char>>) -> Result<(), ColorFault> {
    match form_body(ColorForm::Hsla, text) {
        Err(fault) => Err(fault),
        Ok(body) => hsla_parts(parts_of(body), alphas),
    }
}

/// The verdict on a colour literal that is already trimmed and in lower
/// case. The first form whose opening the text has decides.
pub open spec fn color(text: Seq<char>, alphas: Set<Seq<char>>) -> Result<(), ColorFault> {
    if text.len() > 0 && text[0] == '#' {
        hex_color(text)
    } else if starts_with(text, opening(ColorForm::Rgb)) {
        rgb_color(text)
    } else if starts_with(text, opening(ColorForm::Rgba)) {
        rgba_color(text, alphas)
    } else if starts_with(text, opening(ColorForm::Hsl)) {
        hsl_color(text)
    } else if starts_with(text, opening(ColorForm::Hsla)) {
        hsla_color(text, alphas)
    } else {
        Err(ColorFault::Unknown)
    }
}

/// A colour literal as the grammar reads it: trimmed, then in lower case.
pub open spec fn normalized(value: Seq<char>) -> Seq<char> {
    unicode_lowercase(trimmed(value))
}

/// Whether the test `alpha` says yes to `text`: to a string that holds the
/// text it gives no other answer.
pub open spec fn accepts<A: Fn(&str) -> bool>(alpha: &A, text: Seq<char>) -> bool {
    forall|s: &str, b: bool| s@ == text && #[trigger] alpha.ensures((s,), b) ==> b
}

/// The texts that the test `alpha` says yes to.
pub open spec fn accepted<A: Fn(&str) -> bool>(alpha: &A) -> Set<Seq<char>> {
    Set::new(|text: Seq<char>| accepts(alpha, text))
}

/// Whether `alpha` is a test on texts: it can be asked of any text, and its
/// answer depends on the text alone.
pub open spec fn decides<A: Fn(&str) -> bool>(alpha: &A) -> bool {
    &&& forall|s: &str| #[trigger] alpha.requires((s,))
    &&& forall|s: &str, t: &str, b: bool, c: bool|
        s@ == t@ && #[trigger] alpha.ensures((s,), b) && #[trigger] alpha.ensures((t,), c) ==> b
            == c
}

/// An answer that the test has given to a string settles whether the text
/// of the string is among the accepted ones.
pub proof fn lemma_answer_settles<A: Fn(&str) -> bool>(alpha: &A, s: &str, answer: bool)
    requires
        decides(alpha),
        alpha.ensures((s,), answer),
    ensures
        accepted(alpha).contains(s@) == answer,
{
}

/// How a form opens.
pub fn form_opening(form: ColorForm) -> (text: &'static str)
    ensures
        text@ == opening(form),
{
    match form {
        ColorForm::Rgb => "rgb(",
        ColorForm::Rgba => "rgba(",
        ColorForm::Hsl => "hsl(",
        ColorForm::Hsla => "hsla(",
    }
}

/// Takes the opening and the closing `)` off a literal of the given form.
pub fn strip_form<'a>(form: ColorForm, text: &'a [char]) -> (res: Result<&'a [char], ColorFault>)
    ensures
        res is Ok <==> form_body(form, text@) is Ok,
        res matches Ok(body) ==> body@ == form_body(form, text@)->Ok_0,
        res matches Err(fault) ==> fault == form_body(form, text@)->Err_0,
{
    let body = match strip_prefix(text, form_opening(form)) {
        Some(body) => body,
        None => {
            return Err(ColorFault::Opening(form));
        },
    };
    match strip_last(body, ')') {
        Some(inner) => Ok(inner),
        None => Err(ColorFault::Unclosed(form)),
    }
}

/// Parse percentage (0–100%)
pub fn parse_percentage(s: &[char]) -> (res: Result<(), ColorFault>)
    ensures
        res == percentage(s@),
{
    let number = match strip_last(s, '%') {
        Some(number) => number,
        None => {
            return Err(ColorFault::PercentSign);
        },
    };
    match parse_unsigned(number, 255) {
        None => Err(ColorFault::Percent),
        Some(value) => if value > 100 {
            Err(ColorFault::PercentBound)
        } else {
            Ok(())
        },
    }
}

/// Parse an RGB component (0–255 or 0–100%)
pub fn parse_rgb_component(s: &[char]) -> (res: Result<(), ColorFault>)
    ensures
        res == rgb_component(s@),
{
    if s.len() > 0 && s[s.len() - 1] == '%' {
        return parse_percentage(s);
    }
    match parse_unsigned(s, 65535) {
        None => Err(ColorFault::Number),
        Some(value) => if value > 255 {
            Err(ColorFault::RgbBound)
        } else {
            Ok(())
        },
    }
}

/// Parse hue (0–360)
pub fn parse_hue(s: &[char]) -> (res: Result<(), ColorFault>)
    ensures
        res == hue(s@),
{
    match parse_unsigned(s, 65535) {
        None => Err(ColorFault::Hue),
        Some(value) => if value > 360 {
            Err(ColorFault::HueBound)
        } else {
            Ok(())
        },
    }
}

/// Parse an alpha channel (0–1): the text is handed to `alpha`, which says
/// whether it writes a number in that range.
pub fn parse_alpha<A: Fn(&str) -> bool>(s: &[char], alpha: &A) -> (res: Result<(), ColorFault>)
    requires
        decides(alpha),
    ensures
        res == alpha_value(s@, accepted(alpha)),
{
    let text = string_of(s);
    if alpha(text.as_str()) {
        Ok(())
    } else {
        Err(ColorFault::Alpha)
    }
}

/// Validate a hex color
pub fn validate_hex_color(value: &[char]) -> (res: Result<(), ColorFault>)
    ensures
        res == hex_color(value@),
{
    if value.len() == 0 || value[0] != '#' {
        return Err(ColorFault::HexPrefix);
    }
    let digits = &value[1..value.len()];
    proof {
        assert(digits@ == value@.skip(1));
    }
    if !(utf8_len_is(digits, 3) || utf8_len_is(digits, 4) || utf8_len_is(digits, 6) || utf8_len_is(
        digits,
        8,
    )) {
        return Err(ColorFault::HexLength);
    }
    let mut i: usize = 0;
    while i < digits.len()
        invariant
            i <= digits.len(),
            value@.len() > 0 && value@[0] == '#',
            digits@ == value@.skip(1),
            utf8_len(digits@) == 3 || utf8_len(digits@) == 4 || utf8_len(digits@) == 6
                || utf8_len(digits@) == 8,
            hex_digits(digits@.take(i as int)),
        decreases digits.len() - i,
    {
        if !is_ascii_hex_digit(digits[i]) {
            proof {
                assert(!ascii_hex_digit(digits@[i as int]));
            }
            return Err(ColorFault::HexDigit);
        }
        proof {
            let seen = digits@.take(i + 1);
            assert forall|j: int| 0 <= j < seen.len() implies ascii_hex_digit(
                #[trigger] seen[j],
            ) by {
                if j < i {
                    assert(seen[j] == digits@.take(i as int)[j]);
                }
            }
        }
        i = i + 1;
    }
    proof {
        assert(digits@.take(digits.len() as int) == digits@);
    }
    Ok(())
}

/// Validates the parts of an `rgb(..)` literal.
pub fn validate_rgb_parts(parts: &[&[char]]) -> (res: Result<(), ColorFault>)
    ensures
        res == rgb_parts(views(parts@)),
{
    if parts.len() != 3 {
        return Err(ColorFault::Parts(ColorForm::Rgb));
    }
    proof {
        assert(forall|i: int| 0 <= i < 3 ==> #[trigger] views(parts@)[i] == parts@[i]@);
    }
    parse_rgb_component(parts[0])?;
    parse_rgb_component(parts[1])?;
    parse_rgb_component(parts[2])
}

/// Validates the parts of an `rgba(..)` literal.
pub fn validate_rgba_parts<A: Fn(&str) -> bool>(parts: &[&[char]], alpha: &A) -> (res: Result<
    (),
    ColorFault,
>)
    requires
        decides(alpha),
    ensures
        res == rgba_parts(views(parts@), accepted(alpha)),
{
    if parts.len() != 4 {
        return Err(ColorFault::Parts(ColorForm::Rgba));
    }
    proof {
        assert(forall|i: int| 0 <= i < 4 ==> #[trigger] views(parts@)[i] == parts@[i]@);
    }
    parse_rgb_component(parts[0])?;
    parse_rgb_component(parts[1])?;
    parse_rgb_component(parts[2])?;
    parse_alpha(parts[3], alpha)
}

/// Validates the parts of an `hsl(..)` literal.
pub fn validate_hsl_parts(parts: &[&[char]]) -> (res: Result<(), ColorFault>)
    ensures
        res == hsl_parts(views(parts@)),
{
    if parts.len() != 3 {
        return Err(ColorFault::Parts(ColorForm::Hsl));
    }
    proof {
        assert(forall|i: int| 0 <= i < 3 ==> #[trigger] views(parts@)[i] == parts@[i]@);
    }
    parse_hue(parts[0])?;
    parse_percentage(parts[1])?;
    parse_percentage(parts[2])
}

/// Validates the parts of an `hsla(..)` literal.
pub fn validate_hsla_parts<A: Fn(&str) -> bool>(parts: &[&[char]], alpha: &A) -> (res: Result<
    (),
    ColorFault,
>)
    requires
        decides(alpha),
    ensures
        res == hsla_parts(views(parts@), accepted(alpha)),
{
    if parts.len() != 4 {
        return Err(ColorFault::Parts(ColorForm::Hsla));
    }
    proof {
        assert(forall|i: int| 0 <= i < 4 ==> #[trigger] views(parts@)[i] == parts@[i]@);
    }
    parse_hue(parts[0])?;
    parse_percentage(parts[1])?;
    parse_percentage(parts[2])?;
    parse_alpha(parts[3], alpha)
}

/// Validate a rgb() color
pub fn validate_rgb_color(value: &[char]) -> (res: Result<(), ColorFault>)
    ensures
        res == rgb_color(value@),
{
    let body = strip_form(ColorForm::Rgb, value)?;
    let parts = split_trimmed(body, ',');
    validate_rgb_parts(parts.as_slice())
}

/// Validate a rgba() color
pub fn validate_rgba_color<A: Fn(&str) -> bool>(value: &[char], alpha: &A) -> (res: Result<
    (),
    ColorFault,
>)
    requires
        decides(alpha),
    ensures
        res == rgba_color(value@, accepted(alpha)),
{
    let body = strip_form(ColorForm::Rgba, value)?;
    let parts = split_trimmed(body, ',');
    validate_rgba_parts(parts.as_slice(), alpha)
}

/// Validate a hsl() color
pub fn validate_hsl_color(value: &[char]) -> (res: Result<(), ColorFault>)
    ensures
        res == hsl_color(value@),
{
    let body = strip_form(ColorForm::Hsl, value)?;
    let parts = split_trimmed(body, ',');
    validate_hsl_parts(parts.as_slice())
}

/// Validate a hsla() color
pub fn validate_hsla_color<A: Fn(&str) -> bool>(value: &[char], alpha: &A) -> (res: Result<
    (),
    ColorFault,
>)
    requires
        decides(alpha),
    ensures
        res == hsla_color(value@, accepted(alpha)),
{
    let body = strip_form(ColorForm::Hsla, value)?;
    let parts = split_trimmed(body, ',');
    validate_hsla_parts(parts.as_slice(), alpha)
}

/// Validates a colour literal that is already trimmed and in lower case.
pub fn validate_color_text<A: Fn(&str) -> bool>(text: &[char], alpha: &A) -> (res: Result<
    (),
    ColorFault,
>)
    requires
        decides(alpha),
    ensures
        res == color(text@, accepted(alpha)),
{
    if text.len() > 0 && text[0] == '#' {
        return validate_hex_color(text);
    }
    if strip_prefix(text, form_opening(ColorForm::Rgb)).is_some() {
        return validate_rgb_color(text);
    }
    if strip_prefix(text, form_opening(ColorForm::Rgba)).is_some() {
        return validate_rgba_color(text, alpha);
    }
    if strip_prefix(text, form_opening(ColorForm::Hsl)).is_some() {
        return validate_hsl_color(text);
    }
    if strip_prefix(text, form_opening(ColorForm::Hsla)).is_some() {
        return validate_hsla_color(text, alpha);
    }
    Err(ColorFault::Unknown)
}

/// Hex digits take one byte each.
proof fn lemma_hex_digits_len(s: Seq<char>)
    requires
        hex_digits(s),
    ensures
        utf8_len(s) == s.len(),
    decreases s.len(),
{
    if s.len() > 0 {
        let front = s.drop_last();
        assert forall|i: int| 0 <= i < front.len() implies ascii_hex_digit(#[trigger] front[i]) by {
            assert(front[i] == s[i]);
        }
        lemma_hex_digits_len(front);
        assert(ascii_hex_digit(s.last()));
    }
}

/// A hex colour is accepted exactly when it is `#` and then 3, 4, 6 or 8
/// hex digits.
pub proof fn law_hex_color(text: Seq<char>)
    ensures
        hex_color(text) is Ok <==> {
            &&& text.len() == 4 || text.len() == 5 || text.len() == 7 || text.len() == 9
            &&& text[0] == '#'
            &&& hex_digits(text.skip(1))
        },
{
    if text.len() > 0 && hex_digits(text.skip(1)) {
        lemma_hex_digits_len(text.skip(1));
    }
}

/// The test for alpha values matters to `rgba(..)` and `hsla(..)` literals
/// only: the verdict on any other text is the same whatever the test says.
pub proof fn law_alpha_matters_to_two_forms(
    text: Seq<char>,
    alphas: Set<Seq<char>>,
    others: Set<Seq<char>>,
)
    requires
        !starts_with(text, opening(ColorForm::Rgba)),
        !starts_with(text, opening(ColorForm::Hsla)),
    ensures
        color(text, alphas) == color(text, others),
{
}

/// The alpha part is looked at last: a literal that is rejected for another
/// reason than its alpha part is rejected for that reason whatever the test
/// for alpha values says.
pub proof fn law_alpha_is_checked_last(
    text: Seq<char>,
    alphas: Set<Seq<char>>,
    others: Set<Seq<char>>,
)
    requires
        color(text, alphas) is Err,
        color(text, alphas) != Err::<(), ColorFault>(ColorFault::Alpha),
    ensures
        color(text, others) == color(text, alphas),
{
}

} // verus!
