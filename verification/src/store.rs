//! The text of a note store: one note per line, oldest first.

use crate::annotation::{
    lemma_parse_line, views, Annotation, AnnotationView, AnnotationsData, ParseError,
};
use crate::decimal::{decimal, is_digit, lemma_decimal_value};
use crate::text::{chars_of, find_char, first_index, lemma_first_index, lemma_first_index_is};
use vstd::prelude::*;
use vstd::string::StringExecFns;

verus! {

/// A note as it stands in the store: its line of text and a line end.
pub open spec fn record_line(note: AnnotationView) -> Seq<char> {
    note.line().push('\n')
}

/// The text of a store that holds the notes: their lines one after the
/// other, and nothing else.
pub open spec fn render(notes: Seq<AnnotationView>) -> Seq<char>
    decreases notes.len(),
{
    if notes.len() == 0 {
        Seq::empty()
    } else {
        render(notes.drop_last()) + record_line(notes.last())
    }
}

/// The first line of a text, without its line end. A line ends at the first
/// line feed. A carriage return directly before that line feed belongs to
/// the line end; one at the end of a text that no line feed closes belongs
/// to the line.
pub open spec fn first_line(text: Seq<char>) -> Seq<char> {
    let end = first_index(text, '\n');
    let line = text.take(end as int);
    if end < text.len() && line.len() > 0 && line.last() == '\r' {
        line.drop_last()
    } else {
        line
    }
}

/// What follows the first line of a text and its line end.
pub open spec fn after_first_line(text: Seq<char>) -> Seq<char> {
    let end = first_index(text, '\n');
    if end < text.len() {
        text.skip(end as int + 1)
    } else {
        Seq::empty()
    }
}

/// The notes `head` before the notes of `tail`; the error of `tail` where it
/// is one.
pub open spec fn prepend(
    head: Seq<AnnotationView>,
    tail: Result<Seq<AnnotationView>, ParseError>,
) -> Result<Seq<AnnotationView>, ParseError> {
    match tail {
        Ok(notes) => Ok(head + notes),
        Err(error) => Err(error),
    }
}

/// The notes that the text of a store holds: one from each line that is not
/// empty, in the order of the lines. Where a line is not a note, the error
/// of the first such line.
pub open spec fn load(text: Seq<char>) -> Result<Seq<AnnotationView>, ParseError>
    decreases text.len(),
{
    if text.len() == 0 {
        Ok(Seq::empty())
    } else {
        let line = first_line(text);
        let rest = after_first_line(text);
        if line.len() == 0 {
            load(rest)
        } else {
            match AnnotationView::parse(line) {
                Ok(note) => prepend(seq![note], load(rest)),
                Err(error) => Err(error),
            }
        }
    }
}

/// Whether a store's text gives a note's content back as it is: the content
/// holds no line feed and does not end in a carriage return.
pub open spec fn storable(content: Seq<char>) -> bool {
    &&& !content.contains('\n')
    &&& content.len() > 0 ==> content.last() != '\r'
}

/// The text of a store is empty or ends in a line end.
pub proof fn lemma_render_ends_line(notes: Seq<AnnotationView>)
    ensures
        render(notes).len() == 0 || render(notes).last() == '\n',
{
}

/// The text of a store with the notes of `first` and then those of `second`
/// is the text for `first` followed by the text for `second`.
pub proof fn lemma_render_concat(first: Seq<AnnotationView>, second: Seq<AnnotationView>)
    ensures
        render(first + second) == render(first) + render(second),
    decreases second.len(),
{
    if second.len() == 0 {
        assert(first + second =~= first);
        assert(render(first) + render(second) =~= render(first));
    } else {
        lemma_render_concat(first, second.drop_last());
        assert((first + second).drop_last() =~= first + second.drop_last());
        assert((first + second).last() == second.last());
        assert(render(first + second) =~= render(first) + render(second));
    }
}

/// Taking the note at `index` out of the notes takes its line, and nothing
/// else, out of the store's text.
pub proof fn lemma_render_remove(notes: Seq<AnnotationView>, index: int)
    requires
        0 <= index < notes.len(),
    ensures
        render(notes) == render(notes.take(index)) + record_line(notes[index]) + render(
            notes.skip(index + 1),
        ),
        render(notes.remove(index)) == render(notes.take(index)) + render(notes.skip(index + 1)),
{
    let before = notes.take(index);
    let after = notes.skip(index + 1);
    assert(notes =~= before.push(notes[index]) + after);
    assert(notes.remove(index) =~= before + after);
    lemma_render_concat(before.push(notes[index]), after);
    lemma_render_concat(before, after);
    assert(before.push(notes[index]).drop_last() =~= before);
}

/// Text after a text that is empty or ends in a line end is loaded as if it
/// stood alone, and its notes follow those of the text before it.
pub proof fn lemma_load_concat(head: Seq<char>, tail: Seq<char>)
    requires
        head.len() == 0 || head.last() == '\n',
    ensures
        load(head + tail) == match load(head) {
            Ok(notes) => prepend(notes, load(tail)),
            Err(error) => Err(error),
        },
    decreases head.len(),
{
    if head.len() == 0 {
        assert(head + tail =~= tail);
        match load(tail) {
            Ok(notes) => {
                assert(Seq::<AnnotationView>::empty() + notes =~= notes);
            },
            Err(_) => {},
        }
    } else {
        let whole = head + tail;
        lemma_first_index(head, '\n');
        let end = first_index(head, '\n') as int;
        assert(end < head.len()) by {
            if end == head.len() {
                assert(head[head.len() - 1] != '\n');
            }
        }
        assert forall|j: int| 0 <= j < end implies whole[j] != '\n' by {
            assert(whole[j] == head[j]);
        }
        assert(whole[end] == head[end]);
        lemma_first_index_is(whole, '\n', end);
        assert(whole.take(end) =~= head.take(end));
        assert(first_line(whole) == first_line(head));
        let rest = after_first_line(head);
        assert(after_first_line(whole) =~= rest + tail);
        assert(rest.len() == 0 || rest.last() == '\n') by {
            if rest.len() > 0 {
                assert(rest.last() == head.last());
            }
        }
        lemma_load_concat(rest, tail);
        if first_line(head).len() > 0 {
            match AnnotationView::parse(first_line(head)) {
                Ok(note) => {
                    match (load(rest), load(tail)) {
                        (Ok(more), Ok(last)) => {
                            assert(seq![note] + (more + last) =~= (seq![note] + more) + last);
                        },
                        _ => {},
                    }
                },
                Err(_) => {},
            }
        }
    }
}

/// The line of a note whose content is storable is loaded as that note.
pub proof fn lemma_load_record_line(note: AnnotationView)
    requires
        storable(note.content),
    ensures
        load(record_line(note)) == Ok::<Seq<AnnotationView>, ParseError>(seq![note]),
{
    let line = note.line();
    let text = record_line(note);
    let stamp = decimal(note.created_at as nat);
    lemma_decimal_value(note.created_at as nat);
    assert forall|j: int| 0 <= j < line.len() implies text[j] != '\n' by {
        if j < stamp.len() {
            assert(is_digit(stamp[j]));
        } else if j > stamp.len() {
            assert(note.content.contains(line[j]));
        }
    }
    lemma_first_index_is(text, '\n', line.len() as int);
    assert(text.take(line.len() as int) =~= line);
    assert(line.last() != '\r') by {
        if note.content.len() > 0 {
            assert(line.last() == note.content.last());
        } else {
            assert(line.last() == ' ');
        }
    }
    assert(first_line(text) == line);
    assert(after_first_line(text) =~= Seq::<char>::empty());
    assert(load(Seq::<char>::empty()) == Ok::<Seq<AnnotationView>, ParseError>(Seq::empty()));
    lemma_parse_line(note);
    assert(seq![note] + Seq::<AnnotationView>::empty() =~= seq![note]);
}

/// Adding the line of a note to a store's text adds that note, and nothing
/// else, behind the notes that the store held, provided that the text was
/// empty or ended in a line end and that the content is storable.
pub proof fn lemma_load_after_append(text: Seq<char>, note: AnnotationView)
    requires
        text.len() == 0 || text.last() == '\n',
        storable(note.content),
    ensures
        load(text + record_line(note)) == match load(text) {
            Ok(notes) => Ok(notes.push(note)),
            Err(error) => Err(error),
        },
{
    lemma_load_concat(text, record_line(note));
    lemma_load_record_line(note);
    match load(text) {
        Ok(notes) => {
            assert(notes + seq![note] =~= notes.push(note));
        },
        Err(_) => {},
    }
}

/// Loading the text of a store gives the notes that were written to it, in
/// the order in which they were written, provided that each content is
/// storable.
pub proof fn lemma_load_render(notes: Seq<AnnotationView>)
    requires
        forall|i: int| 0 <= i < notes.len() ==> storable(#[trigger] notes[i].content),
    ensures
        load(render(notes)) == Ok::<Seq<AnnotationView>, ParseError>(notes),
    decreases notes.len(),
{
    if notes.len() > 0 {
        let earlier = notes.drop_last();
        lemma_load_render(earlier);
        lemma_render_ends_line(earlier);
        lemma_load_after_append(render(earlier), notes.last());
        assert(earlier.push(notes.last()) =~= notes);
    } else {
        assert(notes =~= Seq::<AnnotationView>::empty());
    }
}

/// Reads the notes from the text of a store.
pub fn read_annotations(contents: &str) -> (result: Result<Vec<Annotation>, ParseError>)
    ensures
        match result {
            Ok(annotations) => load(contents@) == Ok::<Seq<AnnotationView>, ParseError>(
                views(annotations@),
            ),
            Err(error) => load(contents@) == Err::<Seq<AnnotationView>, ParseError>(error),
        },
{
    let chars = chars_of(contents);
    let text = chars.as_slice();
    let mut annotations: Vec<Annotation> = Vec::new();
    let mut start: usize = 0;
    assert(views(annotations@) + Seq::<AnnotationView>::empty() =~= Seq::<AnnotationView>::empty());
    assert(text@.skip(0) =~= text@);
    while start < text.len()
        invariant
            start <= text.len(),
            text@ == contents@,
            load(text@) == prepend(views(annotations@), load(text@.skip(start as int))),
        decreases text.len() - start,
    {
        let rest = &text[start..text.len()];
        let end: usize = find_char(rest, '\n');
        let closed = end < rest.len();
        let stop: usize = if closed && end > 0 && rest[end - 1] == '\r' {
            end - 1
        } else {
            end
        };
        let next: usize = if closed {
            start + end + 1
        } else {
            start + end
        };
        proof {
            assert(rest@ =~= text@.skip(start as int));
            assert(rest@.take(stop as int) =~= first_line(rest@));
            assert(text@.skip(next as int) =~= after_first_line(rest@));
        }
        if stop > 0 {
            match Annotation::parse_chars(&rest[0..stop]) {
                Ok(annotation) => {
                    proof {
                        let before = views(annotations@);
                        let after = views(annotations@.push(annotation));
                        assert(after =~= before + seq![annotation@]);
                        match load(after_first_line(rest@)) {
                            Ok(notes) => {
                                assert(before + (seq![annotation@] + notes) =~= after + notes);
                            },
                            Err(_) => {},
                        }
                    }
                    annotations.push(annotation);
                },
                Err(error) => {
                    return Err(error);
                },
            }
        }
        start = next;
    }
    proof {
        assert(views(annotations@) + Seq::<AnnotationView>::empty() =~= views(annotations@));
    }
    Ok(annotations)
}

/// The text of a store that holds the notes of `data`.
pub fn save_annotations(data: &AnnotationsData) -> (text: String)
    ensures
        text@ == render(data@),
{
    let annotations = data.get_annotations();
    let mut text = String::new();
    let mut i: usize = 0;
    while i < annotations.len()
        invariant
            i <= annotations.len(),
            annotations@ == data.all(),
            text@ == render(data@.take(i as int)),
        decreases annotations.len() - i,
    {
        annotations[i].push_line(&mut text);
        text.push('\n');
        proof {
            let done = data@.take(i + 1);
            assert(done.drop_last() =~= data@.take(i as int));
            assert(done.last() == annotations@[i as int]@);
        }
        i += 1;
    }
    proof {
        assert(data@.take(i as int) =~= data@);
    }
    text
}

/// The line that adds a note with the given text, written now, to a store.
pub fn annotate(content: &str) -> (line: String)
    ensures
        exists|created_at: u64|
            line@ == #[trigger] record_line(AnnotationView { content: content@, created_at }),
{
    let annotation = Annotation::new(content);
    let mut line = annotation.serialize();
    line.push('\n');
    assert(line@ == record_line(
        AnnotationView { content: content@, created_at: annotation.created_at },
    ));
    line
}

/// The path of the store of the user whose home directory is `home`.
pub fn get_annotations_filename(home: &str) -> (path: String)
    ensures
        path@ == home@ + "/.annotations"@,
{
    let mut path = home.to_owned();
    path.append("/.annotations");
    path
}

} // verus!
