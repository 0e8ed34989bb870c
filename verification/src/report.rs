//! The validation report: where in a manifest a rule was broken, and how.
//!
//! The report, its paths and its errors are `garde`'s. This module says what
//! they hold, as plain sequences, and gives the few `garde` calls that the
//! validators make a contract over those sequences.

use crate::chars::{decimal_text, lemma_utf8_len_bounds, utf8_len};
use vstd::prelude::*;

verus! {

/// `garde::Report`, the list of errors that a validation has found.
#[verifier::external_type_specification]
#[verifier::external_body]
pub struct ExReport(garde::Report);

/// `garde::Path`, the place of a value in a document.
#[verifier::external_type_specification]
#[verifier::external_body]
pub struct ExPath(garde::Path);

/// `garde::Error`, the message of one broken rule.
#[verifier::external_type_specification]
#[verifier::external_body]
pub struct ExError(garde::Error);

/// How a step of a path was reached.
pub enum StepKind {
    /// The value inside an optional field: the step adds no name.
    Unkeyed,
    /// A field of a structure or a key of a map.
    Key,
    /// A position in a list.
    Index,
}

/// One step of a path: a field name, a map key or a list position.
pub ghost struct Step {
    pub kind: StepKind,
    pub text: Seq<char>,
}

/// One line of a report: the path of the offending value and what is wrong
/// with it.
pub ghost struct Entry {
    pub path: Seq<Step>,
    pub message: Seq<char>,
}

/// The step for the field or map key `name`.
pub open spec fn key(name: Seq<char>) -> Step {
    Step { kind: StepKind::Key, text: name }
}

/// The step for position `i` of a list.
pub open spec fn index(i: nat) -> Step {
    Step { kind: StepKind::Index, text: decimal_text(i) }
}

/// The step into the value of an optional field.
pub open spec fn unkeyed() -> Step {
    Step { kind: StepKind::Unkeyed, text: Seq::empty() }
}

/// The entries of a report, oldest first.
pub uninterp spec fn report_entries(report: garde::Report) -> Seq<Entry>;

/// The steps of a path, from the root of the document.
pub uninterp spec fn path_steps(path: garde::Path) -> Seq<Step>;

/// The message that an error carries.
pub uninterp spec fn error_message(error: garde::Error) -> Seq<char>;

/// `Report::new` makes a report without entries.
pub assume_specification[ garde::Report::new ]() -> (report: garde::Report)
    ensures
        report_entries(report) == Seq::<Entry>::empty(),
;

/// `Report::append` pushes the pair of path and error behind the entries
/// that the report holds already.
pub assume_specification[ garde::Report::append ](
    report: &mut garde::Report,
    path: garde::Path,
    error: garde::Error,
)
    ensures
        report_entries(*final(report)) == report_entries(*old(report)).push(
            Entry { path: path_steps(path), message: error_message(error) },
        ),
;

/// `Report::is_empty` tells whether the report holds no entry.
pub assume_specification[ garde::Report::is_empty ](report: &garde::Report) -> (empty: bool)
    ensures
        empty == (report_entries(*report).len() == 0),
;

/// `Path::empty` is the path of the document's root: it has no steps.
pub assume_specification[ garde::Path::empty ]() -> (path: garde::Path)
    ensures
        path_steps(path) == Seq::<Step>::empty(),
;

/// A clone of a path has the steps of the path.
pub assume_specification[ <garde::Path as Clone>::clone ](path: &garde::Path) -> (copy: garde::Path)
    ensures
        path_steps(copy) == path_steps(*path),
;

/// `Path::join` with a string: the new path is the old one and one more
/// step, of kind key, with the string as its text.
#[verifier::external_body]
pub(crate) fn join_key(path: &garde::Path, name: &str) -> (joined: garde::Path)
    ensures
        path_steps(joined) == path_steps(*path).push(key(name@)),
{
    path.join(name)
}

/// `Path::join` with a `usize`: the new path is the old one and one more
/// step, of kind index, with the number in decimal as its text.
#[verifier::external_body]
pub(crate) fn join_index(path: &garde::Path, i: usize) -> (joined: garde::Path)
    ensures
        path_steps(joined) == path_steps(*path).push(index(i as nat)),
{
    path.join(i)
}

/// `Path::join` with `NoKey`: the new path is the old one and one more step,
/// of no kind and with an empty text.
#[verifier::external_body]
pub(crate) fn join_unkeyed(path: &garde::Path) -> (joined: garde::Path)
    ensures
        path_steps(joined) == path_steps(*path).push(unkeyed()),
{
    path.join(garde::error::NoKey::default())
}

/// `Error::new` keeps the message that it is given.
#[verifier::external_body]
pub(crate) fn new_error(message: &str) -> (error: garde::Error)
    ensures
        error_message(error) == message@,
{
    garde::Error::new(message)
}

/// Whether a length in bytes is neither under `min` nor over `max`. No
/// string is longer than `usize::MAX` bytes.
pub open spec fn length_within(len: nat, min: usize, max: usize) -> bool {
    min <= len && (len <= max || max == usize::MAX)
}

/// `garde`'s length rule on a string: it passes when the string's length in
/// bytes is neither under `min` nor over `max`. The message of its error is
/// in the language that the calling thread has installed, so nothing is
/// claimed of it.
#[verifier::external_body]
pub(crate) fn check_length(value: &String, min: usize, max: usize) -> (outcome: garde::Result)
    ensures
        outcome is Ok <==> length_within(utf8_len(value@), min, max),
{
    garde::rules::length::simple::apply(value, (min, max))
}

/// What a validator expects to find in the report for one broken rule.
pub ghost struct Finding {
    pub path: Seq<Step>,
    /// The message, where this crate words it; `None` where the message is
    /// left to `garde`'s length rule.
    pub message: Option<Seq<char>>,
}

/// The finding at `path` for a text that must not be empty.
pub open spec fn empty_text(path: Seq<Step>) -> Finding {
    Finding { path, message: None }
}

/// The finding at `path` with this crate's own `message`.
pub open spec fn worded(path: Seq<Step>, message: Seq<char>) -> Finding {
    Finding { path, message: Some(message) }
}

/// Whether a report entry is the one that a finding asks for.
pub open spec fn fits(entry: Entry, finding: Finding) -> bool {
    &&& entry.path == finding.path
    &&& finding.message matches Some(message) ==> entry.message == message
}

/// Whether `after` is `before` followed by one entry for each of `found`, in
/// the same order, and nothing else.
pub open spec fn extends(before: Seq<Entry>, after: Seq<Entry>, found: Seq<Finding>) -> bool {
    &&& after.len() == before.len() + found.len()
    &&& forall|i: int| 0 <= i < before.len() ==> after[i] == before[i]
    &&& forall|i: int| 0 <= i < found.len() ==> fits(#[trigger] after[before.len() + i], found[i])
}

/// A report extends itself by no findings.
pub proof fn lemma_extends_nothing(entries: Seq<Entry>)
    ensures
        extends(entries, entries, Seq::empty()),
{
}

/// Two extensions in a row are one extension by the findings of both.
pub proof fn lemma_extends_chain(
    first: Seq<Entry>,
    second: Seq<Entry>,
    third: Seq<Entry>,
    found: Seq<Finding>,
    more: Seq<Finding>,
)
    requires
        extends(first, second, found),
        extends(second, third, more),
    ensures
        extends(first, third, found + more),
{
    let all = found + more;
    assert forall|i: int| 0 <= i < all.len() implies fits(
        #[trigger] third[first.len() + i],
        all[i],
    ) by {
        if i < found.len() {
            assert(third[first.len() + i] == second[first.len() + i]);
        } else {
            assert(third[second.len() + (i - found.len())] == third[first.len() + i]);
        }
    }
}

/// Adds the error of a failed rule to the report, at `path`.
pub fn record(report: &mut garde::Report, path: garde::Path, outcome: Result<(), garde::Error>)
    ensures
        match outcome {
            Ok(_) => report_entries(*final(report)) == report_entries(*old(report)),
            Err(error) => report_entries(*final(report)) == report_entries(*old(report)).push(
                Entry { path: path_steps(path), message: error_message(error) },
            ),
        },
{
    match outcome {
        Ok(_) => {},
        Err(error) => {
            report.append(path, error);
        },
    }
}

/// The findings for a text at `path` that must not be empty.
pub open spec fn non_empty_findings(text: Seq<char>, path: Seq<Step>) -> Seq<Finding> {
    if text.len() == 0 {
        seq![empty_text(path)]
    } else {
        Seq::empty()
    }
}

/// Applies the rule that a text must not be empty, and reports a failure at
/// `path`.
pub fn require_non_empty(value: &String, path: garde::Path, report: &mut garde::Report)
    ensures
        extends(
            report_entries(*old(report)),
            report_entries(*final(report)),
            non_empty_findings(value@, path_steps(path)),
        ),
{
    proof {
        lemma_utf8_len_bounds(value@);
    }
    let outcome = check_length(value, 1, usize::MAX);
    record(report, path, outcome);
}

/// The findings for a list of texts at `path`, none of which may be empty:
/// one for each empty text, at the text's position, in the order of the list.
pub open spec fn texts_findings(texts: Seq<String>, path: Seq<Step>) -> Seq<Finding>
    decreases texts.len(),
{
    if texts.len() == 0 {
        Seq::empty()
    } else {
        texts_findings(texts.drop_last(), path) + non_empty_findings(
            texts.last()@,
            path.push(index((texts.len() - 1) as nat)),
        )
    }
}

/// Applies the rule that a text must not be empty to each text of a list,
/// and reports each failure at the text's position under `parent`.
pub fn require_all_non_empty(values: &Vec<String>, parent: &garde::Path, report: &mut garde::Report)
    ensures
        extends(
            report_entries(*old(report)),
            report_entries(*final(report)),
            texts_findings(values@, path_steps(*parent)),
        ),
{
    let ghost start = report_entries(*report);
    let ghost here = path_steps(*parent);
    let mut i: usize = 0;
    while i < values.len()
        invariant
            i <= values.len(),
            here == path_steps(*parent),
            extends(start, report_entries(*report), texts_findings(values@.take(i as int), here)),
        decreases values.len() - i,
    {
        let ghost before = report_entries(*report);
        require_non_empty(&values[i], join_index(parent, i), report);
        proof {
            assert(values@.take(i + 1).drop_last() == values@.take(i as int));
            lemma_extends_chain(
                start,
                before,
                report_entries(*report),
                texts_findings(values@.take(i as int), here),
                non_empty_findings(values@[i as int]@, here.push(index(i as nat))),
            );
        }
        i = i + 1;
    }
    proof {
        assert(values@.take(values.len() as int) == values@);
    }
}

/// Ends a validation: the report is an error unless it is empty.
pub fn conclude(report: garde::Report) -> (res: Result<(), garde::Report>)
    ensures
        res is Ok <==> report_entries(report).len() == 0,
        res matches Err(r) ==> r == report,
{
    if report.is_empty() {
        Ok(())
    } else {
        Err(report)
    }
}

} // verus!
