use vstd::prelude::*;
use crate::channel::{new_frame_channel, try_send_frame};
use crate::frame::{dims_valid, frame_dims_valid, FrameData};

verus! {

/// The lifecycle state of the process-wide session slot: either no
/// capture run is active, or one is, with the sequence index the next
/// accepted frame will receive.
pub enum RegistryState {
    Idle,
    Recording { next_index: u32 },
}

/// The transition a start request makes: from Idle a fresh session
/// begins counting at index zero; while a session is active the
/// request is rejected and the active session is left untouched.
pub open spec fn step_start(s: RegistryState) -> (RegistryState, bool) {
    match s {
        RegistryState::Idle => (RegistryState::Recording { next_index: 0 }, true),
        RegistryState::Recording { .. } => (s, false),
    }
}

/// The transition a stop request makes: an active session is removed;
/// with no active session the request fails and nothing changes.
pub open spec fn step_stop(s: RegistryState) -> (RegistryState, bool) {
    match s {
        RegistryState::Recording { .. } => (RegistryState::Idle, true),
        RegistryState::Idle => (s, false),
    }
}

/// The transition a submit request makes. `valid` says whether the
/// frame buffer matches its dimensions; `accepted` says whether the
/// frame queue took the frame (an outcome of the queue's momentary
/// state). A frame is accepted only while a session is active, only
/// with a valid buffer, and only while the counter can still advance;
/// every rejected submission leaves the state unchanged.
pub open spec fn step_submit(s: RegistryState, valid: bool, accepted: bool) -> (
    RegistryState,
    bool,
) {
    match s {
        RegistryState::Idle => (s, false),
        RegistryState::Recording { next_index } => {
            if valid && next_index < u32::MAX && accepted {
                (RegistryState::Recording { next_index: (next_index + 1) as u32 }, true)
            } else {
                (s, false)
            }
        },
    }
}

/// The sequence indices a session with counter `next_index` has
/// accepted so far, in submission order: 0, 1, ..., next_index - 1.
pub open spec fn accepted_indices(next_index: u32) -> Seq<u32> {
    Seq::new(next_index as nat, |i: int| i as u32)
}

/// Accepted frames carry the indices 0..N-1 in strictly increasing
/// order, matching submission order.
pub proof fn lemma_accepted_indices_ordered(next_index: u32)
    ensures
        accepted_indices(next_index).len() == next_index,
        forall|i: int|
            0 <= i < next_index ==> #[trigger] accepted_indices(next_index)[i] == i,
        forall|i: int, j: int|
            0 <= i < j < next_index ==> #[trigger] accepted_indices(next_index)[i]
                < #[trigger] accepted_indices(next_index)[j],
{
}

/// An accepted submission extends the history of accepted indices by
/// exactly one entry, the index the session's counter stood at; a
/// rejected one extends it by nothing.
pub proof fn lemma_submit_extends_history(s: RegistryState, valid: bool, accepted: bool)
    requires
        s is Recording,
    ensures
        step_submit(s, valid, accepted).1 ==> accepted_indices(
            step_submit(s, valid, accepted).0->Recording_next_index,
        ) == accepted_indices(s->Recording_next_index).push(s->Recording_next_index),
        !step_submit(s, valid, accepted).1 ==> step_submit(s, valid, accepted).0 == s,
{
    if step_submit(s, valid, accepted).1 {
        let n = s->Recording_next_index;
        assert(accepted_indices((n + 1) as u32) =~= accepted_indices(n).push(n));
    }
}

/// Within the fixed five-digit width of the naming scheme, the files
/// of the frames a session accepted are named in strictly increasing
/// lexicographic order, matching submission order.
pub proof fn lemma_files_in_submission_order(next_index: u32, i: int, j: int)
    requires
        0 <= i < j < next_index,
        next_index <= 100000,
    ensures
        crate::name::lex_less(
            crate::name::frame_filename_spec(accepted_indices(next_index)[i]),
            crate::name::frame_filename_spec(accepted_indices(next_index)[j]),
        ),
{
    lemma_accepted_indices_ordered(next_index);
    crate::name::lemma_frame_filename_ordered(i as u32, j as u32);
}

/// Stopping with no active session fails and changes no state, and
/// repeating it gives the same result: stop is idempotent on Idle.
pub proof fn lemma_stop_idle_idempotent(s: RegistryState)
    requires
        s is Idle,
    ensures
        step_stop(s) == (s, false),
        step_stop(step_stop(s).0) == (s, false),
{
}

/// Starting while a session is active fails, leaves the active session
/// fully intact, and every later submission behaves exactly as it
/// would have without the rejected start.
pub proof fn lemma_double_start_rejected(s: RegistryState)
    requires
        s is Recording,
    ensures
        step_start(s) == (s, false),
        forall|valid: bool, accepted: bool| #[trigger]
            step_submit(step_start(s).0, valid, accepted) == step_submit(s, valid, accepted),
{
}

/// After a stop, every submission is rejected and accepts nothing, so
/// no frame submitted after the stop ever reaches the queue.
pub proof fn lemma_no_submit_after_stop(s: RegistryState, valid: bool, accepted: bool)
    ensures
        step_submit(step_stop(s).0, valid, accepted).1 == false,
        step_submit(step_stop(s).0, valid, accepted).0 == step_stop(s).0,
{
}

/// One active capture run: the producer half of the frame queue and
/// the counter holding the next sequence index to assign.
pub struct RecordingSession {
    sender: crossbeam_channel::Sender<FrameData>,
    frame_counter: u32,
}

impl RecordingSession {
    /// The sequence index this session would assign next.
    pub closed spec fn spec_next_index(&self) -> u32 {
        self.frame_counter
    }

    /// The producer half of this session's frame queue.
    pub closed spec fn spec_sender(&self) -> crossbeam_channel::Sender<FrameData> {
        self.sender
    }
}

/// The process-wide single session slot: at most one recording session
/// is active at a time. The caller holds exclusive access while using
/// it. The frame queue rejects submissions without blocking once its
/// configured capacity is full (frames are dropped, never reordered).
pub struct Registry {
    active: Option<RecordingSession>,
}

impl View for Registry {
    type V = RegistryState;

    closed spec fn view(&self) -> RegistryState {
        match self.active {
            Option::None => RegistryState::Idle,
            Option::Some(session) => RegistryState::Recording {
                next_index: session.frame_counter,
            },
        }
    }
}

impl Registry {
    /// The producer half of the active session's frame queue.
    pub closed spec fn active_sender(&self) -> crossbeam_channel::Sender<FrameData>
        recommends
            self@ is Recording,
    {
        match self.active {
            Option::Some(session) => session.sender,
            Option::None => arbitrary(),
        }
    }

    /// A fresh registry with no active session.
    pub fn new() -> (r: Registry)
        ensures
            r@ is Idle,
    {
        Registry { active: Option::None }
    }

    /// Whether a session is currently active.
    pub fn is_recording(&self) -> (r: bool)
        ensures
            r == (self@ is Recording),
    {
        self.active.is_some()
    }

    /// Starts a capture run: installs a fresh session whose counter
    /// starts at zero and whose frame queue is bounded at `capacity`,
    /// and hands back the consumer half of that same queue. If a
    /// session is already active the start is rejected, nothing is
    /// returned, and the active session is left fully intact: its
    /// counter and its queue's producer half are both unchanged.
    pub fn start(&mut self, capacity: usize) -> (r: Option<
        crossbeam_channel::Receiver<FrameData>,
    >)
        requires
            capacity >= 1,
        ensures
            (final(self)@, r is Some) == step_start(old(self)@),
            old(self)@ is Recording ==> final(self).active_sender()
                == old(self).active_sender(),
            r matches Some(receiver) ==> crate::channel::connected(
                final(self).active_sender(),
                receiver,
            ),
            r is Some ==> crate::channel::queue_capacity(final(self).active_sender())
                == capacity,
    {
        if self.active.is_some() {
            return Option::None;
        }
        let (sender, receiver) = new_frame_channel(capacity);
        self.active = Option::Some(RecordingSession { sender, frame_counter: 0 });
        Option::Some(receiver)
    }

    /// Submits one frame: with an active session and a buffer of
    /// exactly `width * height * 4` bytes (both dimensions positive),
    /// the pixels are copied byte for byte into a frame unit carrying
    /// the session's next sequence index — built through
    /// `FrameData::new`, whose contract pins the copy, the dimensions
    /// and the index — and that frame is offered to the session's own
    /// queue. Returns true exactly when the queue took the frame; the
    /// counter then advances once. With no active session, a
    /// mismatched buffer, an exhausted counter, or a full queue it
    /// returns false and no state changes.
    pub fn submit_frame(&mut self, pixels: &[u8], width: u32, height: u32) -> (ok: bool)
        ensures
            (final(self)@, ok) == step_submit(
                old(self)@,
                frame_dims_valid(pixels@.len() as nat, width, height),
                ok,
            ),
            old(self)@ is Recording ==> final(self).active_sender()
                == old(self).active_sender(),
    {
        let session_opt = self.active.take();
        match session_opt {
            Option::None => false,
            Option::Some(mut session) => {
                if !dims_valid(pixels.len(), width, height) {
                    self.active = Option::Some(session);
                    return false;
                }
                if session.frame_counter == u32::MAX {
                    self.active = Option::Some(session);
                    return false;
                }
                let frame = FrameData::new(pixels, width, height, session.frame_counter);
                let ok = try_send_frame(&session.sender, frame);
                if ok {
                    session.frame_counter = session.frame_counter + 1;
                }
                self.active = Option::Some(session);
                ok
            },
        }
    }

    /// Stops the active capture run: removes the session — the very
    /// one that was active, still carrying its counter and the
    /// producer half of its queue — and hands it back so its queue
    /// can be closed and drained; the slot is idle afterwards. With
    /// no active session it fails and changes nothing.
    pub fn stop(&mut self) -> (r: Option<RecordingSession>)
        ensures
            (final(self)@, r is Some) == step_stop(old(self)@),
            final(self)@ is Idle,
            r matches Some(session) ==> old(self)@ == (RegistryState::Recording {
                next_index: session.spec_next_index(),
            }),
            r matches Some(session) ==> session.spec_sender() == old(self).active_sender(),
    {
        self.active.take()
    }
}

} // verus!
