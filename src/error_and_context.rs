//! The error and context locations of a `serde_yaml` error, and its message
//! without the position noise.

use miette::SourceOffset;
use vstd::prelude::*;
use vstd::string::to_string_from_display_ensures;

use crate::message::{at_delimiter, clean_message, cleaned, last_two_marks, mark_at, marks_rtl};
use crate::search::{lemma_find_from, occurs_at};

verus! {

#[verifier::external_type_specification]
#[verifier::external_body]
pub struct ExSourceOffset(SourceOffset);

#[verifier::external_type_specification]
#[verifier::external_body]
pub struct ExYamlError(serde_yaml::Error);

#[verifier::external_type_specification]
#[verifier::external_body]
pub struct ExYamlLocation(serde_yaml::Location);

/// The offset that miette computes for a 1-based `(line, column)` in `contents`.
pub uninterp spec fn offset_of_location(contents: Seq<char>, line: usize, column: usize) -> SourceOffset;

/// Relies on miette's `SourceOffset::from_location`: the offset is computed
/// from the characters of `contents`, the line and the column alone.
#[verifier::external_body]
fn source_offset(contents: &str, line: usize, column: usize) -> (r: SourceOffset)
    ensures
        r == offset_of_location(contents@, line, column),
{
    SourceOffset::from_location(contents, line, column)
}

/// Relies on serde_yaml's `Error::location` to read the error's structured location;
/// nothing is assumed of what it returns.
pub assume_specification[ serde_yaml::Error::location ](e: &serde_yaml::Error) -> Option<serde_yaml::Location>;

/// Relies on serde_yaml's `Location::index` to read the error's structured location;
/// nothing is assumed of what it returns.
pub assume_specification[ serde_yaml::Location::index ](l: &serde_yaml::Location) -> usize;

/// Relies on serde_yaml's `Location::line` to read the error's structured location;
/// nothing is assumed of what it returns.
pub assume_specification[ serde_yaml::Location::line ](l: &serde_yaml::Location) -> usize;

/// Relies on serde_yaml's `Location::column` to read the error's structured location;
/// nothing is assumed of what it returns.
pub assume_specification[ serde_yaml::Location::column ](l: &serde_yaml::Location) -> usize;

/// An error as the deserializer reports it: the text it displays, and the
/// `(byte_index, line, column)` it gives, if any.
pub struct RawError {
    pub message: String,
    pub structured_location: Option<(usize, usize, usize)>,
}

/// The location that the deserializer gives, wrongly, for some kinds of error.
pub open spec fn is_sentinel(location: (usize, usize, usize)) -> bool {
    location == (0usize, 1usize, 1usize)
}

/// Whether `location` is the one that the deserializer gives when it does not
/// know the real one.
pub fn is_sentinel_location(location: (usize, usize, usize)) -> (r: bool)
    ensures
        r == is_sentinel(location),
{
    location.0 == 0 && location.1 == 1 && location.2 == 1
}

/// The `(line, column)` of the error and of its context: the structured
/// location where it can be trusted, else the last two marks of the message
/// (the earlier one is the error, the later one its context; one alone is
/// the error).
pub open spec fn chosen_marks(message: Seq<char>, location: Option<(usize, usize, usize)>) -> (
    Option<(usize, usize)>,
    Option<(usize, usize)>,
) {
    match location {
        None => (None, None),
        Some(t) => if is_sentinel(t) {
            let ms = marks_rtl(message);
            if ms.len() >= 2 {
                (Some(ms[1]), Some(ms[0]))
            } else if ms.len() == 1 {
                (Some(ms[0]), None)
            } else {
                (None, None)
            }
        } else {
            (Some((t.1, t.2)), None)
        },
    }
}

/// The `(line, column)` of the error and of its context.
pub fn select_marks(message: &str, location: Option<(usize, usize, usize)>) -> (r: (
    Option<(usize, usize)>,
    Option<(usize, usize)>,
))
    ensures
        r == chosen_marks(message@, location),
{
    match location {
        None => (None, None),
        Some(t) => {
            if is_sentinel_location(t) {
                let (last, second_to_last) = last_two_marks(message);
                match (second_to_last, last) {
                    (Some(_), Some(_)) => (second_to_last, last),
                    (None, Some(_)) => (last, None),
                    _ => (None, None),
                }
            } else {
                (Some((t.1, t.2)), None)
            }
        },
    }
}

/// The offset of `mark` in `contents`.
pub open spec fn resolved(contents: Seq<char>, mark: Option<(usize, usize)>) -> Option<SourceOffset> {
    match mark {
        Some((line, column)) => Some(offset_of_location(contents, line, column)),
        None => None,
    }
}

fn resolve(contents: &str, mark: Option<(usize, usize)>) -> (r: Option<SourceOffset>)
    ensures
        r == resolved(contents@, mark),
{
    match mark {
        Some((line, column)) => Some(source_offset(contents, line, column)),
        None => None,
    }
}

/// The [`SourceOffset`]s of the error and the surrounding context based on the
/// error display string.
#[derive(Clone, Debug, PartialEq, Eq)]
pub struct ErrorAndContext {
    /// The [`SourceOffset`] of the error.
    pub error_span: Option<SourceOffset>,
    /// The error message with the source offsets truncated: the text before
    /// the first `" at "`.
    pub error_message: String,
    /// The [`SourceOffset`] of the surrounding context.
    pub context_span: Option<SourceOffset>,
}

impl ErrorAndContext {
    /// `self` is what an error with this message and structured location, in
    /// a file with these contents, comes to.
    pub open spec fn describes(
        self,
        contents: Seq<char>,
        message: Seq<char>,
        location: Option<(usize, usize, usize)>,
    ) -> bool {
        let (error_mark, context_mark) = chosen_marks(message, location);
        &&& self.error_span == resolved(contents, error_mark)
        &&& self.context_span == resolved(contents, context_mark)
        &&& self.error_message@ == cleaned(message)
    }

    /// The error and context locations of `error` in `file_contents`, and its
    /// message with the positions cut off.
    pub fn extract(file_contents: &str, error: &RawError) -> (r: Self)
        ensures
            r.describes(file_contents@, error.message@, error.structured_location),
            r.context_span is Some ==> r.error_span is Some,
    {
        let (error_mark, context_mark) = select_marks(error.message.as_str(), error.structured_location);
        ErrorAndContext {
            error_span: resolve(file_contents, error_mark),
            error_message: clean_message(error.message.as_str()),
            context_span: resolve(file_contents, context_mark),
        }
    }

    /// Returns the error location and message to pass to miette.
    ///
    /// The `location()` reported in the error is wrong for some errors, where
    /// it is `(0, 1, 1)`: then the locations are taken from the `Display`
    /// string of the error, best effort. The message is the error's own
    /// display text; the structured location is whatever the error reports.
    pub fn new(file_contents: &str, error: &serde_yaml::Error) -> (r: Self)
        ensures
            exists|message: String, location: Option<(usize, usize, usize)>|
                to_string_from_display_ensures::<serde_yaml::Error>(error, message) && r.describes(
                    file_contents@,
                    message@,
                    location,
                ),
            r.context_span is Some ==> r.error_span is Some,
    {
        let message = error.to_string();
        let structured_location = match error.location() {
            Some(l) => Some((l.index(), l.line(), l.column())),
            None => None,
        };
        let raw = RawError { message, structured_location };
        let r = Self::extract(file_contents, &raw);
        assert(to_string_from_display_ensures::<serde_yaml::Error>(error, raw.message)
            && r.describes(file_contents@, raw.message@, raw.structured_location));
        r
    }
}

/// An error with no structured location and no `" at "` in its message comes
/// to no spans and the message as it is.
pub proof fn lemma_no_location_keeps_message(
    r: ErrorAndContext,
    contents: Seq<char>,
    message: Seq<char>,
)
    requires
        forall|i: int| !occurs_at(message, at_delimiter(), i),
        r.describes(contents, message, None),
    ensures
        r.error_span is None,
        r.context_span is None,
        r.error_message@ == message,
{
    lemma_find_from(message, at_delimiter(), 0);
}

/// A structured location other than `(0, 1, 1)` is taken as the error's,
/// with no context, whatever the message says.
pub proof fn lemma_trusted_location(
    r: ErrorAndContext,
    contents: Seq<char>,
    message: Seq<char>,
    location: (usize, usize, usize),
)
    requires
        !is_sentinel(location),
        r.describes(contents, message, Some(location)),
    ensures
        r.error_span == Some(offset_of_location(contents, location.1, location.2)),
        r.context_span is None,
{
}

/// The marks chosen depend only on the first two well-formed marks found from
/// the right: any further ones are ignored.
pub proof fn lemma_first_two_marks_decide(
    m1: Seq<char>,
    m2: Seq<char>,
    location: Option<(usize, usize, usize)>,
)
    requires
        mark_at(marks_rtl(m1), 0) == mark_at(marks_rtl(m2), 0),
        mark_at(marks_rtl(m1), 1) == mark_at(marks_rtl(m2), 1),
    ensures
        chosen_marks(m1, location) == chosen_marks(m2, location),
{
}

} // verus!
