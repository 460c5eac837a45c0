//! Progress of an import.
use vstd::prelude::*;

use crate::text;

verus! {

/// What progress is measured in.
#[derive(Debug, Clone, Copy, PartialEq, Eq, Structural)]
pub enum ProgressUnit {
    /// Bytes.
    Bytes,
}

/// Something to be reported to the user.
#[derive(Debug)]
pub enum ProgressEvent<S = String> {
    /// A component is there already.
    Skipped {
        /// The component.
        id: S,
    },
    /// The transfer of a component begins.
    Started {
        /// The component.
        id: S,
        /// Its size, if it is known.
        total: Option<u64>,
        /// The unit of the size.
        unit: ProgressUnit,
    },
    /// A component has been transferred.
    Done {
        /// The component.
        id: S,
        /// How much of it was new.
        transferred: u64,
    },
    /// Anything else.
    Message(S),
}

impl View for ProgressEvent<String> {
    type V = ProgressEvent<Seq<char>>;

    open spec fn view(&self) -> ProgressEvent<Seq<char>> {
        match self {
            ProgressEvent::Skipped { id } => ProgressEvent::Skipped { id: id@ },
            ProgressEvent::Started { id, total, unit } => ProgressEvent::Started {
                id: id@,
                total: *total,
                unit: *unit,
            },
            ProgressEvent::Done { id, transferred } => ProgressEvent::Done {
                id: id@,
                transferred: *transferred,
            },
            ProgressEvent::Message(message) => ProgressEvent::Message(message@),
        }
    }
}

/// The models of a list of events.
pub open spec fn events(v: Seq<ProgressEvent<String>>) -> Seq<ProgressEvent<Seq<char>>> {
    Seq::new(v.len(), |i: int| v[i]@)
}

/// A message about `count` bytes of `what`.
pub open spec fn read_text(what: Seq<char>, count: nat) -> Seq<char> {
    "Read "@ + what + " ("@ + text::decimal_text(count) + " bytes)"@
}

/// A message about `count` bytes of `what`.
pub fn read_message(what: &str, count: usize) -> (event: ProgressEvent)
    ensures
        event@ == ProgressEvent::Message(read_text(what@, count as nat)),
{
    let mut out: String = "Read ".to_owned();
    out.append(what);
    out.append(" (");
    out.append(text::decimal(count as u64).as_str());
    out.append(" bytes)");
    ProgressEvent::Message(out)
}

/// The models of events have what the events have.
pub proof fn progress_models_are_faithful(v: Seq<ProgressEvent<String>>, i: int)
    ensures
        events(v).len() == v.len(),
        0 <= i < v.len() ==> match (v[i], events(v)[i]) {
            (ProgressEvent::Skipped { id }, ProgressEvent::Skipped { id: d }) => d == id@,
            (
                ProgressEvent::Started { id, total, unit },
                ProgressEvent::Started { id: d, total: t, unit: u },
            ) => d == id@ && t == total && u == unit,
            (
                ProgressEvent::Done { id, transferred },
                ProgressEvent::Done { id: d, transferred: t },
            ) => d == id@ && t == transferred,
            (ProgressEvent::Message(a), ProgressEvent::Message(b)) => b == a@,
            _ => false,
        },
{
}

} // verus!
