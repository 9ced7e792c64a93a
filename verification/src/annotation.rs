//! A note: a line of text and the time it was written.

use crate::age::RelativeAge;
use crate::clock::now_millis;
use crate::decimal::{
    decimal, is_digit, lemma_decimal_value, lemma_parse_decimal, parse_decimal, parse_u64,
    push_decimal,
};
use crate::text::{chars_of, find_char, first_index, lemma_first_index_is, string_of};
use vstd::prelude::*;
use vstd::string::StringExecFns;

verus! {

/// A note with the time it was written.
#[derive(Debug)]
pub struct Annotation {
    /// The text of the note.
    pub content: String,
    /// When the note was written, in milliseconds since the Unix epoch.
    pub created_at: u64,
}

/// What an `Annotation` holds, as plain values.
pub struct AnnotationView {
    /// The characters of the text.
    pub content: Seq<char>,
    /// Milliseconds since the Unix epoch.
    pub created_at: u64,
}

/// Why a line is not a note.
#[derive(Clone, Copy, Debug, PartialEq, Eq, Structural)]
pub enum ParseError {
    /// The line holds no space, so nothing parts a timestamp from a text.
    MissingDelimiter,
    /// What stands before the first space is not a `u64` in decimal.
    InvalidTimestamp,
}

impl View for Annotation {
    type V = AnnotationView;

    open spec fn view(&self) -> AnnotationView {
        AnnotationView { content: self.content@, created_at: self.created_at }
    }
}

impl AnnotationView {
    /// The note as one line of text, without a line end: the timestamp in
    /// decimal, one space, the content.
    pub open spec fn line(self) -> Seq<char> {
        decimal(self.created_at as nat) + seq![' '] + self.content
    }

    /// The note that a line of text holds. The line is parted at its first
    /// space: what stands before it is the timestamp, everything after it,
    /// further spaces included, is the content.
    pub open spec fn parse(line: Seq<char>) -> Result<AnnotationView, ParseError> {
        let split = first_index(line, ' ');
        if split == line.len() {
            Err(ParseError::MissingDelimiter)
        } else {
            match parse_u64(line.take(split as int)) {
                Some(created_at) => Ok(
                    AnnotationView { content: line.skip(split as int + 1), created_at },
                ),
                None => Err(ParseError::InvalidTimestamp),
            }
        }
    }

    /// The note as it is shown for inspection: the timestamp and the content
    /// in round brackets, with a comma and a space between them.
    pub open spec fn display(self) -> Seq<char> {
        "("@ + decimal(self.created_at as nat) + ", "@ + self.content + ")"@
    }

    /// The age of the note at the time `now`, in words, for a note that is
    /// not from after `now`.
    pub open spec fn age_text(self, now: u64) -> Seq<char>
        recommends
            self.created_at <= now,
    {
        RelativeAge::of((now - self.created_at) as u64).text()
    }

    /// The age shown for the note at the time `now`: none for a note from
    /// after `now`.
    pub open spec fn age_at(self, now: u64) -> Option<Seq<char>> {
        if self.created_at <= now {
            Some(self.age_text(now))
        } else {
            None
        }
    }
}

/// The characters of a string that may be missing.
pub open spec fn text_of(s: Option<String>) -> Option<Seq<char>> {
    match s {
        Some(s) => Some(s@),
        None => None,
    }
}

/// The notes of a sequence as plain values.
pub open spec fn views(annotations: Seq<Annotation>) -> Seq<AnnotationView> {
    annotations.map_values(|a: Annotation| a@)
}

/// A note written to a line and read back is the same note, whatever its
/// content and timestamp.
pub proof fn lemma_parse_line(note: AnnotationView)
    ensures
        AnnotationView::parse(note.line()) == Ok::<AnnotationView, ParseError>(note),
{
    let stamp = decimal(note.created_at as nat);
    let line = note.line();
    lemma_decimal_value(note.created_at as nat);
    lemma_parse_decimal(note.created_at);
    assert forall|j: int| 0 <= j < stamp.len() implies line[j] != ' ' by {
        assert(is_digit(stamp[j]));
    }
    lemma_first_index_is(line, ' ', stamp.len() as int);
    assert(line.take(stamp.len() as int) =~= stamp);
    assert(line.skip(stamp.len() as int + 1) =~= note.content);
}

impl Clone for Annotation {
    fn clone(&self) -> (copy: Self)
        ensures
            copy@ == self@,
    {
        Annotation { content: self.content.clone(), created_at: self.created_at }
    }
}

impl Annotation {
    /// A note with the given text, written now.
    pub fn new(content: &str) -> (annotation: Self)
        ensures
            annotation@.content == content@,
    {
        Annotation { content: content.to_owned(), created_at: now_millis() }
    }

    /// Reads a note from the characters of a line.
    pub fn parse_chars(line: &[char]) -> (result: Result<Annotation, ParseError>)
        ensures
            match result {
                Ok(annotation) => AnnotationView::parse(line@) == Ok::<
                    AnnotationView,
                    ParseError,
                >(annotation@),
                Err(error) => AnnotationView::parse(line@) == Err::<AnnotationView, ParseError>(
                    error,
                ),
            },
    {
        let split: usize = find_char(line, ' ');
        if split == line.len() {
            return Err(ParseError::MissingDelimiter);
        }
        match parse_decimal(&line[0..split]) {
            Some(created_at) => {
                let content = string_of(&line[split + 1..line.len()]);
                Ok(Annotation { content, created_at })
            },
            None => Err(ParseError::InvalidTimestamp),
        }
    }

    /// Reads a note from a line of text.
    pub fn parse(line: &str) -> (result: Result<Annotation, ParseError>)
        ensures
            match result {
                Ok(annotation) => AnnotationView::parse(line@) == Ok::<
                    AnnotationView,
                    ParseError,
                >(annotation@),
                Err(error) => AnnotationView::parse(line@) == Err::<AnnotationView, ParseError>(
                    error,
                ),
            },
    {
        let chars = chars_of(line);
        Annotation::parse_chars(chars.as_slice())
    }

    /// Appends the note's line of text to `out`, without a line end.
    pub fn push_line(&self, out: &mut String)
        ensures
            final(out)@ == old(out)@ + self@.line(),
    {
        push_decimal(out, self.created_at);
        out.push(' ');
        out.append(self.content.as_str());
        proof {
            assert(final(out)@ =~= old(out)@ + self@.line());
        }
    }

    /// The note as one line of text, without a line end.
    pub fn serialize(&self) -> (line: String)
        ensures
            line@ == self@.line(),
    {
        let mut line = String::new();
        self.push_line(&mut line);
        line
    }

    /// The note as it is shown for inspection.
    pub fn to_text(&self) -> (text: String)
        ensures
            text@ == self@.display(),
    {
        let mut text = String::new();
        text.append("(");
        push_decimal(&mut text, self.created_at);
        text.append(", ");
        text.append(self.content.as_str());
        text.append(")");
        proof {
            assert(text@ =~= self@.display());
        }
        text
    }

    /// The age of the note at the time `now`, in words.
    pub fn format_relative_age(&self, now: u64) -> (age: String)
        requires
            self.created_at <= now,
        ensures
            age@ == self@.age_text(now),
    {
        RelativeAge::since(now - self.created_at).to_text()
    }

    /// The age of the note at the time `now`, in words, or `None` for a note
    /// from after `now`.
    pub fn format_age_at(&self, now: u64) -> (age: Option<String>)
        ensures
            text_of(age) == self@.age_at(now),
    {
        if self.created_at <= now {
            Some(self.format_relative_age(now))
        } else {
            None
        }
    }

    /// The age of the note by the system clock, in words, or `None` where the
    /// clock reads a time before the note was written.
    pub fn format_created_at(&self) -> (age: Option<String>)
        ensures
            exists|now: u64| text_of(age) == #[trigger] self@.age_at(now),
    {
        self.format_age_at(now_millis())
    }
}

/// The notes of one store, oldest first.
pub struct AnnotationsData {
    annotations: Vec<Annotation>,
}

impl View for AnnotationsData {
    type V = Seq<AnnotationView>;

    open spec fn view(&self) -> Seq<AnnotationView> {
        views(self.all())
    }
}

impl AnnotationsData {
    /// The notes held, in order.
    pub closed spec fn all(&self) -> Seq<Annotation> {
        self.annotations@
    }

    /// A collection that holds the given notes, in their order.
    pub fn new(annotations: Vec<Annotation>) -> (data: Self)
        ensures
            data.all() == annotations@,
    {
        Self { annotations }
    }

    /// The notes, in their order.
    pub fn get_annotations(&self) -> (annotations: &Vec<Annotation>)
        ensures
            annotations@ == self.all(),
    {
        &self.annotations
    }

    /// The notes, open to change: what the caller leaves in the vector is
    /// what the collection then holds.
    pub fn get_annotations_mut(&mut self) -> (annotations: &mut Vec<Annotation>)
        ensures
            annotations@ == old(self).all(),
            final(self).all() == final(annotations)@,
        no_unwind
    {
        &mut self.annotations
    }
}

} // verus!
