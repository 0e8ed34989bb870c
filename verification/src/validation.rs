//! The rules for single values: identifiers, action names and colours.
//!
//! An identifier is a run of segments with `.` between them; an action name
//! is a single segment. The grammar of colours has a module of its own.
//! Within one value the first broken rule is the only one reported.

use crate::chars::{
    ascii_letter,
    chars_of,
    find_from,
    is_ascii_letter,
    lemma_position,
    position,
    split_on,
    string_of,
    trim,
    unicode_alphanumeric,
};
use crate::color::{
    accepted,
    color,
    color_message,
    color_text,
    decides,
    normalized,
    validate_color_text,
};
use crate::report::{
    error_message,
    extends,
    new_error,
    path_steps,
    record,
    report_entries,
    worded,
    Finding,
    Step,
};
use vstd::prelude::*;

verus! {

/// The rule that a segment breaks.
#[derive(Clone, Copy, Debug, PartialEq, Eq, Structural)]
pub enum SegmentFault {
    /// It is empty or does not start with an ASCII letter.
    Start,
    /// It holds a character that is neither alphanumeric nor `-` nor `_`.
    Characters,
    /// It ends with `-` or `_`.
    Ending,
}

/// Whether `c` is one of the two separators, `-` and `_`.
pub open spec fn separator(c: char) -> bool {
    c == '-' || c == '_'
}

/// Whether `c` may stand inside a segment: any alphanumeric character of
/// Unicode, `-` or `_`.
pub open spec fn segment_char(c: char) -> bool {
    unicode_alphanumeric(c) || separator(c)
}

/// Whether every character of `s` may stand inside a segment.
pub open spec fn segment_chars(s: Seq<char>) -> bool {
    forall|i: int| 0 <= i < s.len() ==> segment_char(#[trigger] s[i])
}

/// The first rule that a segment breaks, in the order start, characters,
/// ending; `None` for a segment that keeps all three.
pub open spec fn segment_fault(s: Seq<char>) -> Option<SegmentFault> {
    if s.len() == 0 || !ascii_letter(s[0]) {
        Some(SegmentFault::Start)
    } else if !segment_chars(s) {
        Some(SegmentFault::Characters)
    } else if separator(s.last()) {
        Some(SegmentFault::Ending)
    } else {
        None
    }
}

/// The fault of the first faulty segment, going from left to right.
pub open spec fn first_fault(segments: Seq<Seq<char>>) -> Option<SegmentFault>
    decreases segments.len(),
{
    if segments.len() == 0 {
        None
    } else if segment_fault(segments[0]) is Some {
        segment_fault(segments[0])
    } else {
        first_fault(segments.drop_first())
    }
}

/// What is wrong with a text as an identifier: the fault of its first faulty
/// segment, the segments being the pieces between dots.
pub open spec fn id_fault(s: Seq<char>) -> Option<SegmentFault> {
    first_fault(split_on(s, '.'))
}

/// What is wrong with a text as an action name: the whole text is one
/// segment.
pub open spec fn name_fault(s: Seq<char>) -> Option<SegmentFault> {
    segment_fault(s)
}

/// Whether `c` is one of the two separators, `-` and `_`.
pub fn is_separator(c: char) -> (b: bool)
    ensures
        b == separator(c),
{
    c == '-' || c == '_'
}

/// Whether a character may stand inside a segment, for a character that
/// comes with the answer to whether it is alphanumeric.
pub open spec fn marked_char(m: (char, bool)) -> bool {
    m.1 || separator(m.0)
}

/// Whether every character of `s` may stand inside a segment, by its mark.
pub open spec fn marked_chars(s: Seq<(char, bool)>) -> bool {
    forall|i: int| 0 <= i < s.len() ==> marked_char(#[trigger] s[i])
}

/// The first rule that a segment breaks, for a segment whose characters
/// each come with the answer to whether they are alphanumeric.
pub open spec fn marked_fault(s: Seq<(char, bool)>) -> Option<SegmentFault> {
    if s.len() == 0 || !ascii_letter(s[0].0) {
        Some(SegmentFault::Start)
    } else if !marked_chars(s) {
        Some(SegmentFault::Characters)
    } else if separator(s.last().0) {
        Some(SegmentFault::Ending)
    } else {
        None
    }
}

/// A character with the answer to whether it is alphanumeric.
pub open spec fn mark(c: char) -> (char, bool) {
    (c, unicode_alphanumeric(c))
}

/// The characters of a text, each with its mark.
pub open spec fn marks(s: Seq<char>) -> Seq<(char, bool)> {
    s.map_values(|c: char| mark(c))
}

/// Marking the characters does not change the verdict on a segment.
pub proof fn lemma_marked_fault(s: Seq<char>)
    ensures
        marked_fault(marks(s)) == segment_fault(s),
{
    let m = marks(s);
    if segment_chars(s) {
        assert forall|i: int| 0 <= i < m.len() implies marked_char(#[trigger] m[i]) by {
            assert(segment_char(s[i]));
        }
    } else {
        let i = choose|i: int| 0 <= i < s.len() && !segment_char(#[trigger] s[i]);
        assert(!marked_char(m[i]));
    }
}

/// Checks one segment against the three rules, given for each character
/// whether it is alphanumeric.
pub fn check_marked(s: &[(char, bool)]) -> (fault: Option<SegmentFault>)
    ensures
        fault == marked_fault(s@),
{
    if s.len() == 0 || !is_ascii_letter(s[0].0) {
        return Some(SegmentFault::Start);
    }
    let mut i: usize = 0;
    while i < s.len()
        invariant
            i <= s.len(),
            s.len() > 0 && ascii_letter(s@[0].0),
            marked_chars(s@.take(i as int)),
        decreases s.len() - i,
    {
        let m: (char, bool) = s[i];
        if !(m.1 || is_separator(m.0)) {
            proof {
                assert(!marked_char(s@[i as int]));
            }
            return Some(SegmentFault::Characters);
        }
        proof {
            let seen = s@.take(i + 1);
            assert forall|j: int| 0 <= j < seen.len() implies marked_char(#[trigger] seen[j]) by {
                if j < i {
                    assert(seen[j] == s@.take(i as int)[j]);
                }
            }
        }
        i = i + 1;
    }
    proof {
        assert(s@.take(s.len() as int) == s@);
    }
    if is_separator(s[s.len() - 1].0) {
        return Some(SegmentFault::Ending);
    }
    None
}

/// Checks one segment against the three rules.
pub fn check_segment(s: &[char]) -> (fault: Option<SegmentFault>)
    ensures
        fault == segment_fault(s@),
{
    let mut marked: Vec<(char, bool)> = Vec::new();
    let mut i: usize = 0;
    while i < s.len()
        invariant
            i <= s.len(),
            marked@ == marks(s@.take(i as int)),
        decreases s.len() - i,
    {
        let c: char = s[i];
        marked.push((c, c.is_alphanumeric()));
        proof {
            assert(s@.take(i + 1) == s@.take(i as int).push(c));
            assert(marked@ == marks(s@.take(i + 1)));
        }
        i = i + 1;
    }
    proof {
        assert(s@.take(s.len() as int) == s@);
        lemma_marked_fault(s@);
    }
    check_marked(marked.as_slice())
}

/// Checks a text against the identifier grammar.
pub fn check_id(s: &[char]) -> (fault: Option<SegmentFault>)
    ensures
        fault == id_fault(s@),
{
    let mut start: usize = 0;
    proof {
        assert(s@.skip(0) == s@);
    }
    loop
        invariant
            start <= s.len(),
            id_fault(s@) == id_fault(s@.skip(start as int)),
        decreases s.len() - start,
    {
        let end: usize = find_from(s, '.', start);
        let ghost rest = s@.skip(start as int);
        proof {
            lemma_position(rest, '.');
            assert(rest.take(end - start) == s@.subrange(start as int, end as int));
        }
        let fault = check_segment(&s[start..end]);
        if fault.is_some() {
            proof {
                assert(split_on(rest, '.')[0] == rest.take(end - start));
            }
            return fault;
        }
        if end == s.len() {
            proof {
                assert(rest.take(end - start) == rest);
                assert(split_on(rest, '.') == seq![rest]);
                assert(first_fault(split_on(rest, '.').drop_first()) is None);
            }
            return None;
        }
        proof {
            let pieces = split_on(rest, '.');
            let tail = split_on(rest.skip(end - start + 1), '.');
            assert(pieces == seq![rest.take(end - start)] + tail);
            assert(pieces.drop_first() == tail);
            assert(rest.skip(end - start + 1) == s@.skip(end + 1));
        }
        start = end + 1;
    }
}

/// The wording of a broken identifier rule.
pub open spec fn id_text(fault: SegmentFault) -> Seq<char> {
    match fault {
        SegmentFault::Start => "segment must start with an alphabetic character"@,
        SegmentFault::Characters => "segment contains invalid characters"@,
        SegmentFault::Ending => "segment must not end with separator"@,
    }
}

/// The wording of a broken action name rule.
pub open spec fn name_text(fault: SegmentFault) -> Seq<char> {
    match fault {
        SegmentFault::Start => "name must start with a ascii alphabetic character"@,
        SegmentFault::Characters => "name must only contain alpha numeric values and _ or -"@,
        SegmentFault::Ending => "name must not end with _ or -"@,
    }
}

/// The wording of a broken identifier rule.
pub fn id_message(fault: SegmentFault) -> (message: &'static str)
    ensures
        message@ == id_text(fault),
{
    match fault {
        SegmentFault::Start => "segment must start with an alphabetic character",
        SegmentFault::Characters => "segment contains invalid characters",
        SegmentFault::Ending => "segment must not end with separator",
    }
}

/// The wording of a broken action name rule.
pub fn name_message(fault: SegmentFault) -> (message: &'static str)
    ensures
        message@ == name_text(fault),
{
    match fault {
        SegmentFault::Start => "name must start with a ascii alphabetic character",
        SegmentFault::Characters => "name must only contain alpha numeric values and _ or -",
        SegmentFault::Ending => "name must not end with _ or -",
    }
}

/// Whether the outcome of a rule is the one that `fault` calls for: success
/// where there is no fault, else an error with the fault's wording.
pub open spec fn outcome_is(outcome: garde::Result, wording: Option<Seq<char>>) -> bool {
    match wording {
        None => outcome is Ok,
        Some(text) => outcome matches Err(error) && error_message(error) == text,
    }
}

/// Validates an identifier of a plugin or of an icon pack.
pub fn validate_id(value: &str, _context: &()) -> (outcome: garde::Result)
    ensures
        outcome is Ok <==> id_fault(value@) is None,
        outcome_is(
            outcome,
            match id_fault(value@) {
                Some(fault) => Some(id_text(fault)),
                None => None,
            },
        ),
{
    let chars = chars_of(value);
    match check_id(chars.as_slice()) {
        None => Ok(()),
        Some(fault) => Err(new_error(id_message(fault))),
    }
}

/// Validates the name of an action.
pub fn validate_name(value: &str, _context: &()) -> (outcome: garde::Result)
    ensures
        outcome is Ok <==> name_fault(value@) is None,
        outcome_is(
            outcome,
            match name_fault(value@) {
                Some(fault) => Some(name_text(fault)),
                None => None,
            },
        ),
{
    let chars = chars_of(value);
    match check_segment(chars.as_slice()) {
        None => Ok(()),
        Some(fault) => Err(new_error(name_message(fault))),
    }
}

/// Whether a segment keeps the three rules: it starts with an ASCII letter,
/// holds only alphanumerics, `-` and `_`, and does not end with `-` or `_`.
pub open spec fn well_formed_segment(s: Seq<char>) -> bool {
    &&& s.len() > 0
    &&& ascii_letter(s[0])
    &&& segment_chars(s)
    &&& !separator(s.last())
}

/// No segment is faulty exactly when each of them is well formed.
proof fn lemma_first_fault(segments: Seq<Seq<char>>)
    ensures
        first_fault(segments) is None <==> forall|i: int|
            0 <= i < segments.len() ==> well_formed_segment(#[trigger] segments[i]),
    decreases segments.len(),
{
    if segments.len() > 0 {
        let rest = segments.drop_first();
        lemma_first_fault(rest);
        if first_fault(segments) is None {
            assert forall|i: int| 0 <= i < segments.len() implies well_formed_segment(
                #[trigger] segments[i],
            ) by {
                if i > 0 {
                    assert(segments[i] == rest[i - 1]);
                }
            }
        } else if segment_fault(segments[0]) is None {
            let i = choose|i: int| 0 <= i < rest.len() && !well_formed_segment(#[trigger] rest[i]);
            assert(rest[i] == segments[i + 1]);
        }
    }
}

/// Where every piece holds segment characters only, the text holds nothing
/// but those and the separator.
proof fn lemma_pieces_hold_the_text(s: Seq<char>, sep: char)
    requires
        forall|i: int|
            0 <= i < split_on(s, sep).len() ==> segment_chars(#[trigger] split_on(s, sep)[i]),
    ensures
        forall|j: int| 0 <= j < s.len() ==> s[j] == sep || segment_char(#[trigger] s[j]),
    decreases s.len(),
{
    lemma_position(s, sep);
    let k = position(s, sep);
    let pieces = split_on(s, sep);
    if k < s.len() {
        let rest = s.skip(k + 1);
        let tail = split_on(rest, sep);
        assert(pieces == seq![s.take(k)] + tail);
        assert forall|i: int| 0 <= i < tail.len() implies segment_chars(#[trigger] tail[i]) by {
            assert(tail[i] == pieces[i + 1]);
        }
        lemma_pieces_hold_the_text(rest, sep);
        assert(segment_chars(pieces[0]));
        assert forall|j: int| 0 <= j < s.len() implies s[j] == sep || segment_char(
            #[trigger] s[j],
        ) by {
            if j < k {
                assert(s[j] == pieces[0][j]);
            } else if j > k {
                assert(s[j] == rest[j - k - 1]);
            }
        }
    } else {
        assert(pieces[0] == s);
        assert(segment_chars(pieces[0]));
    }
}

/// A text is accepted as an identifier exactly when each piece between its
/// dots starts with an ASCII letter, holds only alphanumerics, `-` and `_`,
/// and does not end with `-` or `_`. An accepted text then holds nothing but
/// alphanumerics, `-`, `_` and the dots.
pub proof fn law_identifier_grammar(s: Seq<char>)
    ensures
        id_fault(s) is None <==> forall|i: int|
            0 <= i < split_on(s, '.').len() ==> well_formed_segment(#[trigger] split_on(s, '.')[i]),
        id_fault(s) is None ==> forall|j: int|
            0 <= j < s.len() ==> s[j] == '.' || segment_char(#[trigger] s[j]),
{
    lemma_first_fault(split_on(s, '.'));
    if id_fault(s) is None {
        lemma_pieces_hold_the_text(s, '.');
    }
}

/// A text is accepted as an action name exactly when it keeps the three
/// rules of a segment as a whole.
pub proof fn law_name_grammar(s: Seq<char>)
    ensures
        name_fault(s) is None <==> well_formed_segment(s),
{
}

/// Validates that a string is a valid color value supports:
/// - hex
/// - rgb/rgba
/// - hsl/hsla
///
/// Named colors are not accepted. Whether an alpha part writes a number
/// between 0 and 1 is what `alpha` says of it.
pub fn validate_color<A: Fn(&str) -> bool>(value: &str, alpha: &A) -> (outcome: garde::Result)
    requires
        decides(alpha),
    ensures
        outcome is Ok <==> color(normalized(value@), accepted(alpha)) is Ok,
        outcome_is(
            outcome,
            match color(normalized(value@), accepted(alpha)) {
                Err(fault) => Some(color_text(fault)),
                Ok(_) => None,
            },
        ),
{
    let chars = chars_of(value);
    let trimmed_text = string_of(trim(chars.as_slice()));
    let lowered = trimmed_text.as_str().to_lowercase();
    let text = chars_of(lowered.as_str());
    match validate_color_text(text.as_slice(), alpha) {
        Ok(_) => Ok(()),
        Err(fault) => Err(new_error(color_message(fault))),
    }
}

/// The findings for an identifier at `path`: none, or the one for its
/// first broken rule.
pub open spec fn id_findings(id: Seq<char>, path: Seq<Step>) -> Seq<Finding> {
    match id_fault(id) {
        Some(fault) => seq![worded(path, id_text(fault))],
        None => Seq::empty(),
    }
}

/// The findings for an action name at `path`: none, or the one for its
/// first broken rule.
pub open spec fn name_findings(name: Seq<char>, path: Seq<Step>) -> Seq<Finding> {
    match name_fault(name) {
        Some(fault) => seq![worded(path, name_text(fault))],
        None => Seq::empty(),
    }
}

/// The findings for a colour literal at `path`: none, or the one for its
/// first broken rule.
pub open spec fn color_findings(
    value: Seq<char>,
    path: Seq<Step>,
    alphas: Set<Seq<char>>,
) -> Seq<Finding> {
    match color(normalized(value), alphas) {
        Err(fault) => seq![worded(path, color_text(fault))],
        Ok(_) => Seq::empty(),
    }
}

/// Validates an identifier and reports a failure at `path`.
pub fn report_id(value: &str, path: garde::Path, report: &mut garde::Report)
    ensures
        extends(
            report_entries(*old(report)),
            report_entries(*final(report)),
            id_findings(value@, path_steps(path)),
        ),
{
    let outcome = validate_id(value, &());
    record(report, path, outcome);
}

/// Validates an action name and reports a failure at `path`.
pub fn report_name(value: &str, path: garde::Path, report: &mut garde::Report)
    ensures
        extends(
            report_entries(*old(report)),
            report_entries(*final(report)),
            name_findings(value@, path_steps(path)),
        ),
{
    let outcome = validate_name(value, &());
    record(report, path, outcome);
}

/// Validates a colour literal and reports a failure at `path`.
pub fn report_color<A: Fn(&str) -> bool>(
    value: &str,
    alpha: &A,
    path: garde::Path,
    report: &mut garde::Report,
)
    requires
        decides(alpha),
    ensures
        extends(
            report_entries(*old(report)),
            report_entries(*final(report)),
            color_findings(value@, path_steps(path), accepted(alpha)),
        ),
{
    let outcome = validate_color(value, alpha);
    record(report, path, outcome);
}

} // verus!
