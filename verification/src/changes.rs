//! Filesystem events and the content changes among them.
//!
//! The notification source gathers raw events into batches; this module
//! decides which events of a batch count. Only a change of a file's content
//! counts, and such an event must name exactly one path.

use crate::helpers::{FilePath, PathView};
use vstd::prelude::*;

verus! {

/// The quiet time, in milliseconds, after which a burst of raw events is
/// delivered as one batch.
pub const DEBOUNCE_MILLIS: u64 = 500;

/// What was modified, for an event that reports a modification.
#[derive(Copy, Clone, Debug, PartialEq, Eq, Structural)]
pub enum ModifyKind {
    /// The source did not say.
    Any,
    /// The content of a file.
    Data,
    /// Metadata only: times, permissions, ownership.
    Metadata,
    /// The name.
    Name,
    /// Something else.
    Other,
}

/// What a filesystem event reports.
#[derive(Copy, Clone, Debug, PartialEq, Eq, Structural)]
pub enum EventKind {
    /// The source did not say.
    Any,
    /// A file was opened, read or closed.
    Access,
    /// A file or directory was created.
    Create,
    /// A file or directory was modified.
    Modify(ModifyKind),
    /// A file or directory was removed.
    Remove,
    /// Something else.
    Other,
}

/// One filesystem event as the notification source delivers it.
#[derive(Clone, Debug)]
pub struct RawEvent {
    /// What happened.
    pub kind: EventKind,
    /// The paths it happened to. An event is expected to carry exactly one.
    pub paths: Vec<FilePath>,
}

/// A change of the content of one file.
#[derive(Clone, Debug)]
pub struct ChangeEvent {
    /// The path of the file.
    pub path: FilePath,
}

/// An event that the loop cannot go on from.
#[derive(Copy, Clone, Debug, PartialEq, Eq, Structural)]
pub enum Violation {
    /// A content change came with no path or with more than one.
    PathCount,
    /// A content change came for a path under none of the watched paths.
    OutsideWatched,
}

impl Violation {
    /// The line that tells the user about the violation.
    pub fn message(&self) -> (line: String)
        ensures
            line@ == match *self {
                Violation::PathCount => "Event does not carry exactly one path"@,
                Violation::OutsideWatched => "Event detected outside of directories watched?"@,
            },
    {
        match self {
            Violation::PathCount => String::from_str("Event does not carry exactly one path"),
            Violation::OutsideWatched => String::from_str(
                "Event detected outside of directories watched?",
            ),
        }
    }
}

/// The content changes of one batch, in the order of their events.
#[derive(Clone, Debug)]
pub struct ChangeBatch {
    /// The changes up to the first event that breaks the one-path rule, or
    /// all of them where none does.
    pub changes: Vec<ChangeEvent>,
    /// The rule that the batch breaks, where it breaks one. Nothing after
    /// the breaking event is looked at.
    pub violation: Option<Violation>,
}

/// Whether an event of this kind reports a change of content. No other
/// kind counts.
pub open spec fn is_content_change(kind: EventKind) -> bool {
    kind == EventKind::Modify(ModifyKind::Data)
}

/// What an event stands for: nothing where it reports no change of
/// content, the changed path where it reports one and names exactly one
/// path, and a violation where it reports one and names none or several.
pub open spec fn change(event: RawEvent) -> Result<Option<PathView>, Violation> {
    if !is_content_change(event.kind) {
        Ok(None)
    } else if event.paths@.len() != 1 {
        Err(Violation::PathCount)
    } else {
        Ok(Some(event.paths@[0]@))
    }
}

/// The paths of the changes, in order.
pub open spec fn changed(changes: Seq<ChangeEvent>) -> Seq<PathView> {
    changes.map_values(|c: ChangeEvent| c.path@)
}

/// The paths of the content changes among `events`, in the order of the
/// events.
pub open spec fn changed_paths(events: Seq<RawEvent>) -> Seq<PathView>
    decreases events.len(),
{
    if events.len() == 0 {
        Seq::empty()
    } else {
        let before = changed_paths(events.drop_last());
        match change(events.last()) {
            Ok(Some(path)) => before.push(path),
            _ => before,
        }
    }
}

/// Whether `end` is how far a batch is read: up to its first event that
/// breaks the one-path rule, or to its end.
pub open spec fn is_read_length(events: Seq<RawEvent>, end: int) -> bool {
    &&& 0 <= end <= events.len()
    &&& forall|j: int| 0 <= j < end ==> (#[trigger] change(events[j])) is Ok
    &&& end < events.len() ==> change(events[end]) is Err
}

/// Whether `batch` is what `events` hold: the content changes among the
/// events that are read, and the violation that ended the reading, if one
/// did.
pub open spec fn is_batch(batch: ChangeBatch, events: Seq<RawEvent>) -> bool {
    exists|end: int|
        {
            &&& #[trigger] is_read_length(events, end)
            &&& changed(batch.changes@) == changed_paths(events.take(end))
            &&& batch.violation == if end < events.len() {
                Some(Violation::PathCount)
            } else {
                None
            }
        }
}

/// Decides what one event stands for.
pub fn change_of(event: &RawEvent) -> (found: Result<Option<ChangeEvent>, Violation>)
    ensures
        match found {
            Ok(Some(c)) => change(*event) == Ok::<Option<PathView>, Violation>(Some(c.path@)),
            Ok(None) => change(*event) == Ok::<Option<PathView>, Violation>(None),
            Err(violation) => change(*event) == Err::<Option<PathView>, Violation>(violation),
        },
{
    match event.kind {
        EventKind::Modify(ModifyKind::Data) => {},
        _ => {
            return Ok(None);
        },
    }
    if event.paths.len() != 1 {
        return Err(Violation::PathCount);
    }
    Ok(Some(ChangeEvent { path: event.paths[0].clone() }))
}

/// Picks the content changes out of a batch of events, in order, and stops
/// at the first content change that does not name exactly one path.
pub fn changes_of(events: &[RawEvent]) -> (batch: ChangeBatch)
    ensures
        is_batch(batch, events@),
{
    let mut changes: Vec<ChangeEvent> = Vec::new();
    let mut i: usize = 0;
    assert(changed(changes@) =~= changed_paths(events@.take(0)));
    while i < events.len()
        invariant
            i <= events.len(),
            forall|j: int| 0 <= j < i ==> (#[trigger] change(events@[j])) is Ok,
            changed(changes@) == changed_paths(events@.take(i as int)),
        decreases events.len() - i,
    {
        let ghost before = changed(changes@);
        assert(events@.take(i + 1).drop_last() =~= events@.take(i as int));
        assert(events@.take(i + 1).last() == events@[i as int]);
        match change_of(&events[i]) {
            Ok(Some(found)) => {
                changes.push(found);
                assert(changed(changes@) =~= before.push(found.path@));
            },
            Ok(None) => {},
            Err(violation) => {
                assert(is_read_length(events@, i as int));
                return ChangeBatch { changes, violation: Some(violation) };
            },
        }
        i += 1;
    }
    assert(events@.take(events.len() as int) =~= events@);
    assert(is_read_length(events@, events.len() as int));
    ChangeBatch { changes, violation: None }
}

/// Events that report no change of content, such as creations and changes
/// of metadata only, yield no change at all, however many there are and
/// whatever paths they name.
pub proof fn lemma_other_kinds_yield_nothing(events: Seq<RawEvent>)
    requires
        forall|j: int| 0 <= j < events.len() ==> !is_content_change(#[trigger] events[j].kind),
    ensures
        changed_paths(events) == Seq::<PathView>::empty(),
        is_read_length(events, events.len() as int),
    decreases events.len(),
{
    if events.len() > 0 {
        lemma_other_kinds_yield_nothing(events.drop_last());
    }
}

/// Every change that a batch yields comes from an event that reports a
/// change of content and names that path alone.
pub proof fn lemma_changes_come_from_content_changes(events: Seq<RawEvent>, i: int)
    requires
        0 <= i < changed_paths(events).len(),
    ensures
        exists|j: int|
            0 <= j < events.len() && is_content_change(#[trigger] events[j].kind) && events[j].paths@.len()
                == 1 && events[j].paths@[0]@ == changed_paths(events)[i],
    decreases events.len(),
{
    let before = changed_paths(events.drop_last());
    if i < before.len() {
        lemma_changes_come_from_content_changes(events.drop_last(), i);
        let j = choose|j: int|
            0 <= j < events.drop_last().len() && is_content_change(
                #[trigger] events.drop_last()[j].kind,
            ) && events.drop_last()[j].paths@.len() == 1 && events.drop_last()[j].paths@[0]@
                == before[i];
        assert(events[j] == events.drop_last()[j]);
        assert(changed_paths(events)[i] == before[i]);
    } else {
        let j = events.len() - 1;
        assert(is_content_change(events[j].kind));
    }
}

} // verus!
