//! The interactive list of notes: what it shows, and what each thing the
//! user does changes.

use crate::annotation::{
    text_of, views, Annotation, AnnotationView, AnnotationsData, ParseError,
};
use crate::clock::now_millis;
use crate::store::{
    lemma_load_render, lemma_render_remove, load, render, save_annotations, storable,
};
use vstd::prelude::*;
use vstd::string::{StrSliceExecFns, StringExecFns};

verus! {

/// The width to which the age of a note is padded in its entry.
pub const AGE_WIDTH: usize = 14;

/// `text` moved to the right edge of a field of `width` characters by spaces
/// before it; `text` itself where it is at least that long.
pub open spec fn pad_left(text: Seq<char>, width: nat) -> Seq<char> {
    if text.len() >= width {
        text
    } else {
        Seq::new((width - text.len()) as nat, |i: int| ' ') + text
    }
}

/// The entry that the list shows for a note at the time `now`: the age,
/// padded to `AGE_WIDTH`, a bar between spaces, and the content.
pub open spec fn entry_text(note: AnnotationView, now: u64) -> Seq<char>
    recommends
        note.created_at <= now,
{
    pad_left(note.age_text(now), AGE_WIDTH as nat) + " | "@ + note.content
}

/// The entry shown for a note at the time `now`: none for a note from after
/// `now`.
pub open spec fn entry_at(note: AnnotationView, now: u64) -> Option<Seq<char>> {
    if note.created_at <= now {
        Some(entry_text(note, now))
    } else {
        None
    }
}

/// The entries shown for the notes at the time `now`, in the notes' order.
pub open spec fn entries_of(notes: Seq<AnnotationView>, now: u64) -> Seq<Seq<char>> {
    notes.map_values(|note: AnnotationView| entry_text(note, now))
}

/// Whether none of the notes is from after `now`.
pub open spec fn all_written_by(notes: Seq<AnnotationView>, now: u64) -> bool {
    forall|i: int| 0 <= i < notes.len() ==> (#[trigger] notes[i]).created_at <= now
}

/// Appends `text` to `out`, after as many spaces as it takes to fill `width`
/// characters.
pub fn push_padded(out: &mut String, text: &str, width: usize)
    ensures
        final(out)@ == old(out)@ + pad_left(text@, width as nat),
{
    let len: usize = text.unicode_len();
    if len < width {
        let mut i: usize = 0;
        while i < width - len
            invariant
                len < width,
                i <= width - len,
                out@ == old(out)@ + Seq::new(i as nat, |i: int| ' '),
            decreases width - len - i,
        {
            out.push(' ');
            proof {
                assert(old(out)@ + Seq::new((i + 1) as nat, |i: int| ' ') =~= (old(out)@ + Seq::new(
                    i as nat,
                    |i: int| ' ',
                )).push(' '));
            }
            i += 1;
        }
    }
    out.append(text);
    proof {
        assert(final(out)@ =~= old(out)@ + pad_left(text@, width as nat));
    }
}

/// The entry that the list shows for the note at the time `now`, or `None`
/// for a note from after `now`.
pub fn annotation_text_at(annotation: &Annotation, now: u64) -> (entry: Option<String>)
    ensures
        text_of(entry) == entry_at(annotation@, now),
{
    if annotation.created_at > now {
        return None;
    }
    let age = annotation.format_relative_age(now);
    let mut entry = String::new();
    push_padded(&mut entry, age.as_str(), AGE_WIDTH);
    entry.append(" | ");
    entry.append(annotation.content.as_str());
    proof {
        assert(entry@ =~= entry_text(annotation@, now));
    }
    Some(entry)
}

/// The entry that the list shows for the note by the system clock, or
/// `None` where the clock reads a time before the note was written.
pub fn build_annotation_text(annotation: &Annotation) -> (entry: Option<String>)
    ensures
        exists|now: u64| text_of(entry) == #[trigger] entry_at(annotation@, now),
{
    annotation_text_at(annotation, now_millis())
}

/// What stands in the window of the list.
#[derive(Debug)]
pub enum LayoutBody {
    /// No note is held: a message and a hint to the user.
    Placeholder { message: String, hint: String },
    /// One entry for each note, in the notes' order.
    Entries(Vec<String>),
}

/// The window of the list.
#[derive(Debug)]
pub struct AnnotationsLayout {
    pub title: String,
    pub body: LayoutBody,
}

/// What a `LayoutBody` holds, as plain values.
pub enum LayoutBodyView {
    Placeholder { message: Seq<char>, hint: Seq<char> },
    Entries(Seq<Seq<char>>),
}

/// What an `AnnotationsLayout` holds, as plain values.
pub struct AnnotationsLayoutView {
    pub title: Seq<char>,
    pub body: LayoutBodyView,
}

impl View for LayoutBody {
    type V = LayoutBodyView;

    open spec fn view(&self) -> LayoutBodyView {
        match self {
            LayoutBody::Placeholder { message, hint } => LayoutBodyView::Placeholder {
                message: message@,
                hint: hint@,
            },
            LayoutBody::Entries(entries) => LayoutBodyView::Entries(
                entries@.map_values(|entry: String| entry@),
            ),
        }
    }
}

impl View for AnnotationsLayout {
    type V = AnnotationsLayoutView;

    open spec fn view(&self) -> AnnotationsLayoutView {
        AnnotationsLayoutView { title: self.title@, body: self.body@ }
    }
}

/// The window shown for the notes at the time `now`: a placeholder where
/// there is no note, else the notes' entries. None where a note is from
/// after `now`.
pub open spec fn layout_of(notes: Seq<AnnotationView>, now: u64) -> Option<AnnotationsLayoutView> {
    if !all_written_by(notes, now) {
        None
    } else if notes.len() == 0 {
        Some(
            AnnotationsLayoutView {
                title: "Annotations"@,
                body: LayoutBodyView::Placeholder {
                    message: "You have not registered any annotation!"@,
                    hint: "Try: jotspot [text]"@,
                },
            },
        )
    } else {
        Some(
            AnnotationsLayoutView {
                title: "Annotations"@,
                body: LayoutBodyView::Entries(entries_of(notes, now)),
            },
        )
    }
}

/// What a layout that may be missing holds, as plain values.
pub open spec fn layout_view(layout: Option<AnnotationsLayout>) -> Option<AnnotationsLayoutView> {
    match layout {
        Some(layout) => Some(layout@),
        None => None,
    }
}

/// The window shown for the notes at the time `now`, or `None` where a note
/// is from after `now`.
pub fn layout_at(annotations: &[Annotation], now: u64) -> (layout: Option<AnnotationsLayout>)
    ensures
        layout_view(layout) == layout_of(views(annotations@), now),
{
    let ghost notes = views(annotations@);
    if annotations.len() == 0 {
        return Some(
            AnnotationsLayout {
                title: "Annotations".to_owned(),
                body: LayoutBody::Placeholder {
                    message: "You have not registered any annotation!".to_owned(),
                    hint: "Try: jotspot [text]".to_owned(),
                },
            },
        );
    }
    let mut entries: Vec<String> = Vec::new();
    let mut i: usize = 0;
    while i < annotations.len()
        invariant
            i <= annotations.len(),
            notes == views(annotations@),
            all_written_by(notes.take(i as int), now),
            entries@.map_values(|entry: String| entry@) == entries_of(notes.take(i as int), now),
        decreases annotations.len() - i,
    {
        match annotation_text_at(&annotations[i], now) {
            Some(entry) => {
                proof {
                    let shown = entries@.map_values(|entry: String| entry@);
                    let next = entries@.push(entry).map_values(|entry: String| entry@);
                    assert(notes.take(i + 1) =~= notes.take(i as int).push(notes[i as int]));
                    assert(next =~= shown.push(entry@));
                    assert(entries_of(notes.take(i + 1), now) =~= entries_of(
                        notes.take(i as int),
                        now,
                    ).push(entry_text(notes[i as int], now)));
                }
                entries.push(entry);
            },
            None => {
                assert(notes[i as int].created_at > now);
                return None;
            },
        }
        i += 1;
    }
    proof {
        assert(notes.take(i as int) =~= notes);
    }
    Some(AnnotationsLayout { title: "Annotations".to_owned(), body: LayoutBody::Entries(entries) })
}

/// The window shown for the notes by the system clock, or `None` where the
/// clock reads a time before one of them was written.
pub fn build_annotations_layout(annotations: &[Annotation]) -> (layout: Option<AnnotationsLayout>)
    ensures
        exists|now: u64| layout_view(layout) == #[trigger] layout_of(views(annotations@), now),
{
    layout_at(annotations, now_millis())
}

/// Taking a note out of the notes takes its entry, and nothing else, out of
/// the entries shown: the entry at an index is always that of the note at
/// the same index.
pub proof fn lemma_entries_mirror_notes(notes: Seq<AnnotationView>, now: u64, index: int)
    requires
        0 <= index < notes.len(),
    ensures
        entries_of(notes, now).len() == notes.len(),
        entries_of(notes, now)[index] == entry_text(notes[index], now),
        entries_of(notes.remove(index), now) == entries_of(notes, now).remove(index),
{
    assert(entries_of(notes.remove(index), now) =~= entries_of(notes, now).remove(index));
}

/// Where the session stands.
#[derive(Clone, Copy, Debug, PartialEq, Eq, Structural)]
pub enum Mode {
    /// The list is shown and no question is open.
    Browsing,
    /// The user is asked whether to remove the entry at `index`.
    ConfirmingDelete { index: usize },
}

/// What the user did.
#[derive(Clone, Copy, Debug, PartialEq, Eq, Structural)]
pub enum Event {
    /// Picked the entry at this index of the list.
    ItemActivated(usize),
    /// Answered the question with yes.
    ConfirmYes,
    /// Answered the question with no.
    ConfirmNo,
    /// Closed the session.
    Quit,
}

/// What the screen has to do after an event.
#[derive(Clone, Copy, Debug, PartialEq, Eq, Structural)]
pub enum Action {
    /// Nothing.
    Stay,
    /// Ask whether to remove the entry at `index`.
    AskRemoval { index: usize },
    /// Close the question and leave the list as it is.
    CloseQuestion,
    /// Take the entry at `index` out of the list, then close the question.
    RemoveEntry { index: usize },
    /// Write the notes to the store and end the session.
    SaveAndExit,
}

/// A session as plain values: where it stands and the notes it holds.
pub struct Session {
    pub mode: Mode,
    pub notes: Seq<AnnotationView>,
}

impl Session {
    /// A question is only ever open about a note that is held.
    pub open spec fn wf(self) -> bool {
        self.mode matches Mode::ConfirmingDelete { index } ==> index < self.notes.len()
    }

    /// The session after an event, and what the screen has to do.
    ///
    /// Picking an entry opens the question about it. Yes removes the note
    /// that the question is about and no removes nothing; both lead back to
    /// the list. Closing the session asks for the notes to be saved and
    /// changes nothing. An event that does not fit where the session stands,
    /// or that names an entry that is not there, changes nothing.
    pub open spec fn step(self, event: Event) -> (Session, Action) {
        match (self.mode, event) {
            (Mode::Browsing, Event::ItemActivated(index)) => if index < self.notes.len() {
                (
                    Session { mode: Mode::ConfirmingDelete { index }, notes: self.notes },
                    Action::AskRemoval { index },
                )
            } else {
                (self, Action::Stay)
            },
            (Mode::ConfirmingDelete { index }, Event::ConfirmYes) => (
                Session { mode: Mode::Browsing, notes: self.notes.remove(index as int) },
                Action::RemoveEntry { index },
            ),
            (Mode::ConfirmingDelete { index }, Event::ConfirmNo) => (
                Session { mode: Mode::Browsing, notes: self.notes },
                Action::CloseQuestion,
            ),
            (_, Event::Quit) => (self, Action::SaveAndExit),
            _ => (self, Action::Stay),
        }
    }
}

/// No event leads out of the well-formed sessions.
pub proof fn lemma_step_keeps_wf(session: Session, event: Event)
    requires
        session.wf(),
    ensures
        session.step(event).0.wf(),
{
}

/// Removing the entry at `index` and then saving leaves a store whose text
/// is the text of before without the line of the note at `index`, and which,
/// where the contents are storable, loads as the notes of before without
/// that note, the others in their order.
pub proof fn lemma_delete_then_save(notes: Seq<AnnotationView>, index: usize)
    requires
        index < notes.len(),
    ensures
        ({
            let asked = Session { mode: Mode::ConfirmingDelete { index }, notes };
            let (after, action) = asked.step(Event::ConfirmYes);
            &&& action == Action::RemoveEntry { index }
            &&& after.mode == Mode::Browsing
            &&& after.notes == notes.remove(index as int)
            &&& render(after.notes) == render(notes.take(index as int)) + render(
                notes.skip(index + 1),
            )
            &&& (forall|i: int| 0 <= i < notes.len() ==> storable(#[trigger] notes[i].content))
                ==> load(render(after.notes)) == Ok::<Seq<AnnotationView>, ParseError>(
                notes.remove(index as int),
            )
        }),
{
    lemma_render_remove(notes, index as int);
    if forall|i: int| 0 <= i < notes.len() ==> storable(#[trigger] notes[i].content) {
        let left = notes.remove(index as int);
        assert forall|i: int| 0 <= i < left.len() implies storable(#[trigger] left[i].content) by {
            if i < index {
                assert(left[i] == notes[i]);
            } else {
                assert(left[i] == notes[i + 1]);
            }
        }
        lemma_load_render(left);
    }
}

/// The interactive list: the notes it holds and where the session stands.
pub struct ListController {
    data: AnnotationsData,
    mode: Mode,
}

impl View for ListController {
    type V = Session;

    closed spec fn view(&self) -> Session {
        Session { mode: self.mode, notes: self.data@ }
    }
}

impl ListController {
    #[verifier::type_invariant]
    spec fn inv(self) -> bool {
        self@.wf()
    }

    /// A session that shows the notes, with no question open.
    pub fn new(annotations: Vec<Annotation>) -> (controller: Self)
        ensures
            controller@ == (Session { mode: Mode::Browsing, notes: views(annotations@) }),
    {
        ListController { data: AnnotationsData::new(annotations), mode: Mode::Browsing }
    }

    /// Where the session stands.
    pub fn mode(&self) -> (mode: Mode)
        ensures
            mode == self@.mode,
            self@.wf(),
    {
        proof {
            use_type_invariant(self);
        }
        self.mode
    }

    /// The notes that the session holds.
    pub fn collection(&self) -> (data: &AnnotationsData)
        ensures
            data@ == self@.notes,
    {
        &self.data
    }

    /// The user picked the entry at `index`.
    pub fn on_activate(&mut self, index: usize) -> (action: Action)
        ensures
            (final(self)@, action) == old(self)@.step(Event::ItemActivated(index)),
    {
        self.handle(Event::ItemActivated(index))
    }

    /// The user answered the question with yes.
    pub fn on_confirm_delete(&mut self) -> (action: Action)
        ensures
            (final(self)@, action) == old(self)@.step(Event::ConfirmYes),
    {
        self.handle(Event::ConfirmYes)
    }

    /// The user answered the question with no.
    pub fn on_cancel(&mut self) -> (action: Action)
        ensures
            (final(self)@, action) == old(self)@.step(Event::ConfirmNo),
    {
        self.handle(Event::ConfirmNo)
    }

    /// Takes the session through one event and says what the screen has to
    /// do.
    pub fn handle(&mut self, event: Event) -> (action: Action)
        ensures
            (final(self)@, action) == old(self)@.step(event),
    {
        proof {
            use_type_invariant(&*self);
        }
        match (self.mode, event) {
            (Mode::Browsing, Event::ItemActivated(index)) => {
                if index < self.data.get_annotations().len() {
                    self.mode = Mode::ConfirmingDelete { index };
                    Action::AskRemoval { index }
                } else {
                    Action::Stay
                }
            },
            (Mode::ConfirmingDelete { index }, Event::ConfirmYes) => {
                self.mode = Mode::Browsing;
                self.data.get_annotations_mut().remove(index);
                proof {
                    assert(self@.notes =~= old(self)@.notes.remove(index as int));
                }
                Action::RemoveEntry { index }
            },
            (Mode::ConfirmingDelete { index }, Event::ConfirmNo) => {
                self.mode = Mode::Browsing;
                Action::CloseQuestion
            },
            (_, Event::Quit) => Action::SaveAndExit,
            _ => Action::Stay,
        }
    }

    /// The text of the store that holds the notes of the session: what is
    /// written when the session ends.
    pub fn save(&self) -> (text: String)
        ensures
            text@ == render(self@.notes),
    {
        save_annotations(&self.data)
    }
}

} // verus!
