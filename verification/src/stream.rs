//! Ingestion of a source of unknown length, chunk by chunk.
//!
//! The frame loop asks at most one read at a time of a worker and polls for
//! its outcome without waiting. What the loop does on each frame and with
//! each outcome is decided here; the reads themselves are made elsewhere.

use vstd::prelude::*;
use crate::app::App;
use crate::arena::{perspective_get, region_get, region_get_mut, view_get};
use crate::keys::RegionKey;
use crate::meta::Meta;
use crate::perspective::{grid_offset, saturate_usize};
use crate::region::{NamedRegion, Region};
use crate::source::{Source, SourceState};

verus! {

/// Bytes asked of the source by one read.
pub const STREAM_CHUNK_SIZE: usize = 1024;

/// Where the ingestion of a source stands.
#[derive(Clone, Copy, Debug, PartialEq, Eq, Structural)]
pub enum StreamState {
    /// No read is under way.
    Idle,
    /// One read is under way.
    AwaitingChunk,
    /// The source was read to its end.
    Ended,
}

/// What the frame loop reports.
#[derive(Debug)]
pub enum StreamEvent {
    /// A frame begins.
    Tick,
    /// The poll found nothing yet.
    Empty,
    /// The poll found the bytes of a read; none at the end of the source.
    Chunk(Vec<u8>),
    /// The poll found that the worker is gone.
    Disconnected,
}

/// What the frame loop is to do.
#[derive(Clone, Copy, Debug, PartialEq, Eq, Structural)]
pub enum StreamAction {
    Nothing,
    /// Poll for the outcome of the read under way and report it.
    Poll,
    /// Start one read of at most `chunk_size` bytes.
    SpawnRead { chunk_size: usize },
}

/// An event as far as the state of the ingestion depends on it.
pub enum StreamInput {
    /// A frame begins; `demand` tells whether the view needs bytes that the
    /// buffer does not hold.
    Tick { demand: bool },
    Empty,
    /// A read gave `len` bytes.
    Chunk { len: nat },
    Disconnected,
}

/// The state after `input` and what the frame loop is to do.
pub open spec fn stream_next(state: StreamState, input: StreamInput) -> (StreamState, StreamAction) {
    match state {
        StreamState::Ended => (StreamState::Ended, StreamAction::Nothing),
        StreamState::Idle => match input {
            StreamInput::Tick { demand } => if demand {
                (
                    StreamState::AwaitingChunk,
                    StreamAction::SpawnRead { chunk_size: STREAM_CHUNK_SIZE },
                )
            } else {
                (StreamState::Idle, StreamAction::Nothing)
            },
            _ => (StreamState::Idle, StreamAction::Nothing),
        },
        StreamState::AwaitingChunk => match input {
            StreamInput::Tick { demand } => (
                StreamState::AwaitingChunk,
                if demand {
                    StreamAction::Poll
                } else {
                    StreamAction::Nothing
                },
            ),
            StreamInput::Empty => (StreamState::AwaitingChunk, StreamAction::Nothing),
            StreamInput::Chunk { len } => (
                if len == 0 {
                    StreamState::Ended
                } else {
                    StreamState::Idle
                },
                StreamAction::Nothing,
            ),
            StreamInput::Disconnected => (StreamState::Idle, StreamAction::Nothing),
        },
    }
}

/// The state after all of `inputs`.
pub open spec fn stream_run(state: StreamState, inputs: Seq<StreamInput>) -> StreamState
    decreases inputs.len(),
{
    if inputs.len() == 0 {
        state
    } else {
        stream_next(stream_run(state, inputs.drop_last()), inputs.last()).0
    }
}

/// Reads under way in `state`.
pub open spec fn reads_open(state: StreamState) -> int {
    if state == StreamState::AwaitingChunk {
        1
    } else {
        0
    }
}

/// Reads started over all of `inputs`, from `state`.
pub open spec fn reads_started(state: StreamState, inputs: Seq<StreamInput>) -> int
    decreases inputs.len(),
{
    if inputs.len() == 0 {
        0
    } else {
        let before = stream_run(state, inputs.drop_last());
        reads_started(state, inputs.drop_last()) + (if stream_next(before, inputs.last()).1
            is SpawnRead {
            1int
        } else {
            0int
        })
    }
}

/// Reads finished over all of `inputs`, from `state`: a read finishes when
/// its bytes arrive or its worker is found gone.
pub open spec fn reads_finished(state: StreamState, inputs: Seq<StreamInput>) -> int
    decreases inputs.len(),
{
    if inputs.len() == 0 {
        0
    } else {
        let before = stream_run(state, inputs.drop_last());
        reads_finished(state, inputs.drop_last()) + (if before == StreamState::AwaitingChunk && (
        inputs.last() is Chunk || inputs.last() is Disconnected) {
            1int
        } else {
            0int
        })
    }
}

/// A read is started only when none is under way, and never after the end
/// of the source.
pub proof fn lemma_read_starts_from_idle(state: StreamState, input: StreamInput)
    ensures
        stream_next(state, input).1 is SpawnRead ==> state == StreamState::Idle && stream_next(
            state,
            input,
        ).0 == StreamState::AwaitingChunk && input == (StreamInput::Tick { demand: true }),
        state == StreamState::Ended ==> stream_next(state, input) == (
            StreamState::Ended,
            StreamAction::Nothing,
        ),
{
}

/// At every instant at most one read is under way: over any run of events,
/// the reads started and not yet finished are those that the state shows,
/// none or one.
pub proof fn lemma_one_read_at_a_time(state: StreamState, inputs: Seq<StreamInput>)
    ensures
        reads_open(state) + reads_started(state, inputs) - reads_finished(state, inputs)
            == reads_open(stream_run(state, inputs)),
        0 <= reads_open(stream_run(state, inputs)) <= 1,
    decreases inputs.len(),
{
    if inputs.len() > 0 {
        lemma_one_read_at_a_time(state, inputs.drop_last());
    }
}

impl StreamEvent {
    /// The bytes that the event brings; none unless it is a chunk.
    pub open spec fn bytes(&self) -> Seq<u8> {
        match *self {
            StreamEvent::Chunk(bytes) => bytes@,
            _ => Seq::empty(),
        }
    }

    /// The event as far as the state of the ingestion depends on it.
    pub open spec fn input(&self, demand: bool) -> StreamInput {
        match *self {
            StreamEvent::Tick => StreamInput::Tick { demand },
            StreamEvent::Empty => StreamInput::Empty,
            StreamEvent::Chunk(bytes) => StreamInput::Chunk { len: bytes@.len() },
            StreamEvent::Disconnected => StreamInput::Disconnected,
        }
    }
}

impl App {
    /// Where the ingestion of the source stands. Without a source nothing
    /// is ingested.
    pub open spec fn spec_stream_state(&self) -> StreamState {
        if self.source is None {
            StreamState::Idle
        } else if self.source->0.state.stream_end {
            StreamState::Ended
        } else if self.stream_pending {
            StreamState::AwaitingChunk
        } else {
            StreamState::Idle
        }
    }

    /// Whether the focused view needs bytes that the buffer does not hold:
    /// the source is streamed, a view is in focus, and the offset at its top
    /// left plus one page reaches the end of the buffer or lies past it.
    pub open spec fn stream_demand(&self) -> bool {
        &&& self.source matches Some(src)
        &&& src.attr.stream
        &&& self.focused_view matches Some(key)
        &&& {
            let v = self.meta.views.entries()[key].view;
            let p = self.meta.perspectives.entries()[v.perspective];
            let top_left = saturate_usize(
                grid_offset(
                    p.bound(self.meta.regions).begin as int,
                    p.cols as int,
                    v.scroll_offset.row as int,
                    v.scroll_offset.col as int,
                ),
            );
            top_left + saturate_usize(v.spec_rows_visible() * p.cols) >= self.data.len()
        }
    }

    /// The region that grows with the buffer: that of the focused view.
    pub open spec fn active_region(&self) -> RegionKey {
        self.focused_perspective().region
    }

    /// Whether this state is `before` after the bytes of a read were taken:
    /// the bytes stand at the end of the buffer, no read is under way, and
    /// the active region ends with the buffer if it begins inside it.
    pub open spec fn is_ingestion_of(&self, before: App, bytes: Seq<u8>) -> bool {
        &&& *self == (App { data: self.data, stream_pending: false, meta: self.meta, ..before })
        &&& self.data@ == before.data@ + bytes
        &&& self.meta == (Meta { regions: self.meta.regions, ..before.meta })
        &&& before.focused_view is None ==> self.meta.regions == before.meta.regions
        &&& before.focused_view is Some ==> {
            let rk = before.active_region();
            let was = before.meta.regions.entries()[rk];
            if was.region.begin <= self.data@.len() - 1 {
                self.meta.regions.entries() == before.meta.regions.entries().insert(
                    rk,
                    NamedRegion {
                        region: Region {
                            begin: was.region.begin,
                            end: (self.data@.len() - 1) as usize,
                        },
                        ..was
                    },
                )
            } else {
                self.meta.regions == before.meta.regions
            }
        }
    }

    /// Where the ingestion of the source stands.
    pub fn stream_state(&self) -> (s: StreamState)
        ensures
            s == self.spec_stream_state(),
    {
        match self.source {
            None => StreamState::Idle,
            Some(src) => if src.state.stream_end {
                StreamState::Ended
            } else if self.stream_pending {
                StreamState::AwaitingChunk
            } else {
                StreamState::Idle
            },
        }
    }

    /// Whether the focused view needs bytes that the buffer does not hold.
    pub fn wants_more_data(&self) -> (b: bool)
        requires
            self.wf(),
        ensures
            b == self.stream_demand(),
    {
        let src = match self.source {
            Some(src) => src,
            None => { return false; },
        };
        if !src.attr.stream {
            return false;
        }
        let key = match self.focused_view {
            Some(key) => key,
            None => { return false; },
        };
        let nv = view_get(&self.meta.views, key).unwrap();
        assert(self.meta.perspectives.entries().contains_key(nv.view.perspective));
        assert(self.meta.perspectives.entries()[nv.view.perspective].wf(self.meta.regions));
        let top_left = nv.view.offsets(&self.meta.perspectives, &self.meta.regions).byte;
        let page = nv.view.bytes_per_page(&self.meta.perspectives);
        match top_left.checked_add(page) {
            Some(reach) => reach >= self.data.len(),
            None => true,
        }
    }

    /// One step of the ingestion of a streamed source.
    ///
    /// On a tick a read is asked for when the focused view needs bytes that
    /// the buffer does not hold and no read is under way, and a poll when
    /// one is. The outcome of a poll counts only while a read is under way:
    /// bytes are put at the end of the buffer and the active region is made
    /// to end with it; no bytes mark the end of the source; a worker that is
    /// gone frees the way for another read.
    pub fn try_read_stream(&mut self, event: StreamEvent) -> (action: StreamAction)
        requires
            old(self).wf(),
        ensures
            final(self).wf(),
            (final(self).spec_stream_state(), action) == stream_next(
                old(self).spec_stream_state(),
                event.input(old(self).stream_demand()),
            ),
            old(self).data@.is_prefix_of(final(self).data@),
            old(self).spec_stream_state() == StreamState::AwaitingChunk && event.bytes().len() > 0
                ==> final(self).is_ingestion_of(*old(self), event.bytes()),
            !(old(self).spec_stream_state() == StreamState::AwaitingChunk && event.bytes().len() > 0)
                ==> *final(self) == (App {
                stream_pending: final(self).stream_pending,
                source: final(self).source,
                ..*old(self)
            }),
            old(self).source is None ==> final(self).source is None,
            old(self).source matches Some(src) ==> final(self).source == Some(
                Source {
                    state: SourceState { stream_end: final(self).source->0.state.stream_end },
                    ..src
                },
            ),
    {
        let state = self.stream_state();
        match event {
            StreamEvent::Tick => {
                let demand = self.wants_more_data();
                match state {
                    StreamState::Ended => StreamAction::Nothing,
                    StreamState::AwaitingChunk => if demand {
                        StreamAction::Poll
                    } else {
                        StreamAction::Nothing
                    },
                    StreamState::Idle => if demand {
                        self.stream_pending = true;
                        StreamAction::SpawnRead { chunk_size: STREAM_CHUNK_SIZE }
                    } else {
                        StreamAction::Nothing
                    },
                }
            },
            StreamEvent::Empty => StreamAction::Nothing,
            StreamEvent::Disconnected => {
                if let StreamState::AwaitingChunk = state {
                    self.stream_pending = false;
                }
                StreamAction::Nothing
            },
            StreamEvent::Chunk(bytes) => {
                if let StreamState::AwaitingChunk = state {
                    if bytes.len() == 0 {
                        self.stream_pending = false;
                        match self.source {
                            Some(src) => {
                                self.source = Some(
                                    Source { state: SourceState { stream_end: true }, ..src },
                                );
                            },
                            None => {},
                        }
                    } else {
                        self.ingest(bytes);
                    }
                }
                StreamAction::Nothing
            },
        }
    }

    /// Puts `bytes` at the end of the buffer, marks that no read is under
    /// way and makes the active region end with the buffer.
    fn ingest(&mut self, bytes: Vec<u8>)
        requires
            old(self).wf(),
            bytes@.len() > 0,
        ensures
            final(self).wf(),
            final(self).is_ingestion_of(*old(self), bytes@),
    {
        let ghost before = *self;
        let mut bytes = bytes;
        self.data.append(&mut bytes);
        self.stream_pending = false;
        if let Some(key) = self.focused_view {
            let p_key = view_get(&self.meta.views, key).unwrap().view.perspective;
            let p = perspective_get(&self.meta.perspectives, p_key).unwrap();
            assert(p.wf(self.meta.regions));
            let rk = p.region;
            let last = self.data.len() - 1;
            let begin = region_get(&self.meta.regions, rk).unwrap().region.begin;
            if begin <= last {
                let nr = region_get_mut(&mut self.meta.regions, rk);
                nr.region.end = last;
                proof {
                    assert forall|k: RegionKey|
                        before.meta.regions.entries().contains_key(k) implies {
                        &&& (#[trigger] self.meta.regions.entries()[k]).region.wf()
                        &&& self.meta.regions.entries()[k].region.measurable()
                    } by {
                        if k != rk {
                            assert(before.meta.regions.entries()[k].region.wf());
                        }
                    }
                    self.meta.lemma_wf_carries_over(before.meta);
                }
            }
        }
    }
}

} // verus!
