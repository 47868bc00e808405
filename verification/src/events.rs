//! Events fetched from the event endpoints (or read from the local
//! metadata file) and their conversion to checkpoint and event chunks.
//! An event becomes a chunk only when both its id and its group are
//! present; its body bytes are taken only when the payload is tagged as a
//! raw buffer, and missing numeric fields default to zero.

use vstd::prelude::*;
use vstd::string::*;

use crate::chunk::{Chunk, ChunkV};

verus! {

/// The payload of an event: a tag and raw bytes, both optional.
#[derive(Debug, Clone, PartialEq)]
pub struct EventData {
    pub typ: Option<String>,
    pub data: Option<Vec<u8>>,
}

/// One event of an event group.
#[derive(Debug, Clone, PartialEq)]
pub struct Event {
    pub id: Option<String>,
    pub group: Option<String>,
    pub meta: Option<String>,
    pub time1: Option<i32>,
    pub time2: Option<i32>,
    pub data: Option<EventData>,
}

/// Which event group a chunk comes from: the checkpoint group becomes
/// chunk type 2, the Pavlov group chunk type 3.
#[derive(Debug, Clone, Copy, PartialEq, Eq, Structural)]
pub enum EventKind {
    Checkpoint,
    Pavlov,
}

/// A missing numeric field defaults to zero.
pub open spec fn opt_i32_or_zero(o: Option<i32>) -> i32 {
    match o {
        Some(v) => v,
        None => 0,
    }
}

/// The body bytes of an event: the raw payload when it is tagged as a
/// buffer, empty otherwise.
pub open spec fn event_payload(e: Event) -> Seq<u8> {
    match e.data {
        Some(ed) => match (ed.typ, ed.data) {
            (Some(t), Some(b)) => if t@ == "Buffer"@ {
                b@
            } else {
                Seq::<u8>::empty()
            },
            _ => Seq::<u8>::empty(),
        },
        None => Seq::<u8>::empty(),
    }
}

/// An event is emitted as a chunk only when id and group are both present.
pub open spec fn event_emits(e: Event) -> bool {
    e.id is Some && e.group is Some
}

/// The text of an optional field, kept optional.
pub open spec fn opt_string_text(o: Option<String>) -> Option<Seq<char>> {
    match o {
        Some(s) => Some(s@),
        None => None,
    }
}

/// The chunk an emitted event becomes.
pub open spec fn event_chunk_v(e: Event, kind: EventKind) -> ChunkV
    recommends
        event_emits(e),
{
    match kind {
        EventKind::Checkpoint => ChunkV::Checkpoint {
            data: event_payload(e),
            id: opt_text_or_empty(e.id),
            group: opt_text_or_empty(e.group),
            metadata: opt_string_text(e.meta),
            time1: opt_i32_or_zero(e.time1),
            time2: opt_i32_or_zero(e.time2),
        },
        EventKind::Pavlov => ChunkV::Event {
            data: event_payload(e),
            id: opt_text_or_empty(e.id),
            group: opt_text_or_empty(e.group),
            metadata: opt_string_text(e.meta),
            time1: opt_i32_or_zero(e.time1),
            time2: opt_i32_or_zero(e.time2),
        },
    }
}

/// The text of an optional field, or empty when missing.
pub open spec fn opt_text_or_empty(o: Option<String>) -> Seq<char> {
    match o {
        Some(s) => s@,
        None => Seq::<char>::empty(),
    }
}

/// Converts one event to its chunk: nothing when id or group is missing;
/// otherwise a chunk of the group's type with the buffer-tagged payload
/// (or empty body), the optional metadata text, and zero-defaulted times.
pub fn chunk_from_event(e: &Event, kind: EventKind) -> (r: Option<Chunk>)
    ensures
        r is Some <==> event_emits(*e),
        r matches Some(c) ==> c@ == event_chunk_v(*e, kind),
{
    let id: String = match &e.id {
        Some(s) => s.clone(),
        None => {
            return None;
        },
    };
    let group: String = match &e.group {
        Some(s) => s.clone(),
        None => {
            return None;
        },
    };
    let data: Vec<u8> = event_payload_bytes(e);
    let metadata: Option<String> = match &e.meta {
        Some(m) => Some(m.clone()),
        None => None,
    };
    let time1: i32 = match e.time1 {
        Some(v) => v,
        None => 0,
    };
    let time2: i32 = match e.time2 {
        Some(v) => v,
        None => 0,
    };
    let c: Chunk = match kind {
        EventKind::Checkpoint => Chunk::Checkpoint { data, id, group, metadata, time1, time2 },
        EventKind::Pavlov => Chunk::Event { data, id, group, metadata, time1, time2 },
    };
    proof {
        assert(c@ == event_chunk_v(*e, kind));
    }
    Some(c)
}

/// Copies the buffer-tagged payload of an event, or nothing.
fn event_payload_bytes(e: &Event) -> (r: Vec<u8>)
    ensures
        r@ == event_payload(*e),
{
    let tagged: bool = match &e.data {
        Some(ed) => match &ed.typ {
            Some(t) => {
                let tag: String = String::from_str("Buffer");
                *t == tag
            },
            None => false,
        },
        None => false,
    };
    if tagged {
        match &e.data {
            Some(ed) => match &ed.data {
                Some(b) => {
                    let mut out: Vec<u8> = Vec::new();
                    out.extend_from_slice(b.as_slice());
                    out
                },
                None => Vec::new(),
            },
            None => Vec::new(),
        }
    } else {
        Vec::new()
    }
}

/// The chunks of the first `i` events of a group, capped at `cap` events:
/// list order kept, non-emitting events skipped.
pub open spec fn event_chunks_upto(events: Seq<Event>, cap: usize, kind: EventKind, i: int) -> Seq<
    ChunkV,
>
    decreases i,
{
    if i <= 0 {
        Seq::<ChunkV>::empty()
    } else {
        event_chunks_upto(events, cap, kind, i - 1) + (if i - 1 < cap && i - 1 < events.len()
            && event_emits(events[i - 1]) {
            seq![event_chunk_v(events[i - 1], kind)]
        } else {
            Seq::<ChunkV>::empty()
        })
    }
}

/// Converts an event group to its chunks, in list order, capped at `cap`
/// events; events without id or group are skipped.
pub fn event_chunks(events: &Vec<Event>, cap: usize, kind: EventKind) -> (r: Vec<Chunk>)
    ensures
        r.deep_view() == event_chunks_upto(events@, cap, kind, events@.len() as int),
{
    let mut out: Vec<Chunk> = Vec::new();
    let n: usize = events.len();
    let mut i: usize = 0;
    while i < n
        invariant
            i <= n,
            n == events@.len(),
            out.deep_view() =~= event_chunks_upto(events@, cap, kind, i as int),
        decreases n - i,
    {
        if i < cap {
            match chunk_from_event(&events[i], kind) {
                Some(c) => {
                    out.push(c);
                },
                None => {},
            }
        }
        proof {
            assert(out.deep_view() =~= event_chunks_upto(events@, cap, kind, i + 1 as int));
        }
        i = i + 1;
    }
    out
}

} // verus!
