use vstd::prelude::*;
use crate::frame::FrameData;

verus! {

#[verifier::external_type_specification]
#[verifier::external_body]
#[verifier::reject_recursive_types(T)]
pub struct ExSender<T>(crossbeam_channel::Sender<T>);

#[verifier::external_type_specification]
#[verifier::external_body]
#[verifier::reject_recursive_types(T)]
pub struct ExReceiver<T>(crossbeam_channel::Receiver<T>);

/// Whether `receiver` is the consumer half of the same queue whose
/// producer half is `sender`: the pairing crossbeam_channel::bounded
/// establishes when it creates a channel.
pub uninterp spec fn connected(
    sender: crossbeam_channel::Sender<FrameData>,
    receiver: crossbeam_channel::Receiver<FrameData>,
) -> bool;

/// The buffer capacity crossbeam_channel::bounded gave the queue
/// behind `sender` when it was created.
pub uninterp spec fn queue_capacity(sender: crossbeam_channel::Sender<FrameData>) -> nat;

/// Relies on crossbeam_channel::bounded: a FIFO channel with room for
/// `capacity` buffered messages, returned as the producer half and the
/// consumer half of that one queue.
#[verifier::external_body]
pub(crate) fn new_frame_channel(capacity: usize) -> (r: (
    crossbeam_channel::Sender<FrameData>,
    crossbeam_channel::Receiver<FrameData>,
))
    ensures
        connected(r.0, r.1),
        queue_capacity(r.0) == capacity,
{
    crossbeam_channel::bounded(capacity)
}

/// Relies on crossbeam_channel::Sender::try_send: hands the frame to
/// the channel and returns true, or returns false without blocking
/// when the channel is full or the consumer half is gone. Whether it
/// succeeds depends on the channel's momentary state, so nothing more
/// is promised of the result.
#[verifier::external_body]
pub(crate) fn try_send_frame(
    sender: &crossbeam_channel::Sender<FrameData>,
    frame: FrameData,
) -> (ok: bool)
{
    sender.try_send(frame).is_ok()
}

/// Relies on crossbeam_channel::Receiver::recv: blocks until the next
/// message in submission (FIFO) order arrives and returns it, or
/// returns None once the channel is empty and the producer half is
/// gone. Which frame arrives depends on what was sent, so nothing more
/// is promised of the result.
#[verifier::external_body]
pub fn recv_frame(receiver: &crossbeam_channel::Receiver<FrameData>) -> (r: Option<FrameData>)
{
    match receiver.recv() {
        Ok(frame) => Some(frame),
        Err(_) => None,
    }
}

} // verus!
