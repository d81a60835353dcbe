//! The byte-stream channel that couples a download response to an upload request.

use vstd::prelude::*;

verus! {

/// `bytes::Bytes`, a block of bytes that is passed on unread.
#[verifier::external_type_specification]
#[verifier::external_body]
pub struct ExBytes(bytes::Bytes);

/// `std::io::Error`, the fault that ends an upload. Nothing is read from it.
#[verifier::external_type_specification]
#[verifier::external_body]
pub struct ExIoError(std::io::Error);

/// `tokio::sync::mpsc::Sender`, the send end of a bounded channel. It is
/// stored and handed out; nothing is sent through it here.
#[verifier::external_type_specification]
#[verifier::external_body]
#[verifier::reject_recursive_types(T)]
pub struct ExSender<T>(tokio::sync::mpsc::Sender<T>);

/// `tokio::sync::mpsc::Receiver`, the receive end of a bounded channel.
/// It is handed to the caller; nothing is received from it here.
#[verifier::external_type_specification]
#[verifier::external_body]
#[verifier::reject_recursive_types(T)]
pub struct ExReceiver<T>(tokio::sync::mpsc::Receiver<T>);

/// One item of a relayed body: a block of bytes, or the fault that ended the upload.
pub type Chunk = Result<bytes::Bytes, std::io::Error>;

/// The send end of a transfer, held until the upload for it arrives.
pub type ChunkSender = tokio::sync::mpsc::Sender<Chunk>;

/// The receive end of a transfer, owned by the download response.
pub type ChunkReceiver = tokio::sync::mpsc::Receiver<Chunk>;

/// Blocks that a transfer holds in flight.
pub const TRANSFER_BLOCKS: usize = 2;

/// The number of items that the channel of a send end holds at most: what
/// `Sender::max_capacity` gives.
pub uninterp spec fn channel_capacity(sender: ChunkSender) -> nat;

/// The two ends belong to one channel: what goes into `sender` comes out of
/// `receiver`.
pub uninterp spec fn same_channel(sender: ChunkSender, receiver: ChunkReceiver) -> bool;

/// `tokio::sync::mpsc::channel`: the two ends of one new bounded channel
/// that holds `capacity` items at most. The call panics on a capacity of
/// zero or above an eighth of `usize::MAX`, so those are left out.
#[verifier::external_body]
pub(crate) fn chunk_channel(capacity: usize) -> (ends: (ChunkSender, ChunkReceiver))
    requires
        0 < capacity <= usize::MAX / 8,
    ensures
        channel_capacity(ends.0) == capacity,
        same_channel(ends.0, ends.1),
{
    tokio::sync::mpsc::channel(capacity)
}

/// The text that a fault carries as its payload.
pub uninterp spec fn fault_message(e: std::io::Error) -> Seq<char>;

/// `std::io::Error::new` with `ErrorKind::Other`: a fault that holds
/// `message` as its payload.
#[verifier::external_body]
pub(crate) fn other_io_error(message: String) -> (e: std::io::Error)
    ensures
        fault_message(e) == message@,
{
    std::io::Error::new(std::io::ErrorKind::Other, message)
}

/// Where a transfer stands.
#[derive(Clone, Copy, PartialEq, Eq, Debug, Structural)]
pub enum TransferPhase {
    /// The send end is stored and the sender has been asked to upload.
    Allocated,
    /// An upload has claimed the transfer and bytes flow.
    Streaming,
    /// One of the two ends is closed.
    Done,
}

/// What happens to a transfer.
#[derive(Clone, Copy, PartialEq, Eq, Debug, Structural)]
pub enum TransferEvent {
    /// An upload has claimed the transfer.
    UploadMatched,
    /// A block of the upload went into the channel.
    BlockForwarded,
    /// The receiver has dropped its end.
    ReceiverGone,
    /// Reading the upload failed.
    BodyFault,
    /// The upload has come to its end.
    BodyEnd,
}

/// The phase that follows `phase` on `event`. A transfer goes from
/// allocated to streaming when an upload claims it, stays streaming while
/// blocks are forwarded, and is done as soon as either end closes or the
/// upload fails. Nothing leads out of done, and nothing is tried again.
pub open spec fn next_phase(phase: TransferPhase, event: TransferEvent) -> TransferPhase {
    match (phase, event) {
        (TransferPhase::Allocated, TransferEvent::UploadMatched) => TransferPhase::Streaming,
        (TransferPhase::Allocated, TransferEvent::ReceiverGone) => TransferPhase::Done,
        (TransferPhase::Allocated, _) => TransferPhase::Allocated,
        (TransferPhase::Streaming, TransferEvent::UploadMatched) => TransferPhase::Streaming,
        (TransferPhase::Streaming, TransferEvent::BlockForwarded) => TransferPhase::Streaming,
        (TransferPhase::Streaming, _) => TransferPhase::Done,
        (TransferPhase::Done, _) => TransferPhase::Done,
    }
}

/// The phase that follows `phase` on `event`.
pub fn transfer_step(phase: TransferPhase, event: TransferEvent) -> (r: TransferPhase)
    ensures
        r == next_phase(phase, event),
{
    match phase {
        TransferPhase::Allocated => match event {
            TransferEvent::UploadMatched => TransferPhase::Streaming,
            TransferEvent::ReceiverGone => TransferPhase::Done,
            _ => TransferPhase::Allocated,
        },
        TransferPhase::Streaming => match event {
            TransferEvent::UploadMatched => TransferPhase::Streaming,
            TransferEvent::BlockForwarded => TransferPhase::Streaming,
            _ => TransferPhase::Done,
        },
        TransferPhase::Done => TransferPhase::Done,
    }
}

/// What reading the body of an upload gives.
pub enum BodyItem {
    /// The next block of bytes.
    Block(bytes::Bytes),
    /// Reading failed, with this message.
    Fault(String),
    /// The body has come to its end.
    End,
}

/// What the upload loop does with an item of the body.
pub enum Relay {
    /// Send the chunk into the channel; go on if it was taken, stop if the
    /// receiver is gone.
    Forward(Chunk),
    /// Send the chunk into the channel, whatever becomes of it, and stop.
    ForwardLast(Chunk),
    /// Stop.
    Stop,
}

/// What the upload loop does with `item`: a block goes into the channel
/// as it is; a fault goes into the channel as one error item with the
/// fault's message and ends the loop; the end of the body ends the loop.
pub fn relay_of(item: BodyItem) -> (r: Relay)
    ensures
        match item {
            BodyItem::Block(block) => r == Relay::Forward(Ok(block)),
            BodyItem::Fault(message) => r matches Relay::ForwardLast(Err(e)) && fault_message(e)
                == message@,
            BodyItem::End => r is Stop,
        },
{
    match item {
        BodyItem::Block(block) => Relay::Forward(Ok(block)),
        BodyItem::Fault(message) => Relay::ForwardLast(Err(other_io_error(message))),
        BodyItem::End => Relay::Stop,
    }
}

/// The event that a step of the upload loop amounts to: what was done with
/// the item, and whether the channel took what was sent.
pub fn relay_event(relay: &Relay, delivered: bool) -> (e: TransferEvent)
    ensures
        e == match relay {
            Relay::Forward(_) => if delivered {
                TransferEvent::BlockForwarded
            } else {
                TransferEvent::ReceiverGone
            },
            Relay::ForwardLast(_) => TransferEvent::BodyFault,
            Relay::Stop => TransferEvent::BodyEnd,
        },
{
    match relay {
        Relay::Forward(_) => if delivered {
            TransferEvent::BlockForwarded
        } else {
            TransferEvent::ReceiverGone
        },
        Relay::ForwardLast(_) => TransferEvent::BodyFault,
        Relay::Stop => TransferEvent::BodyEnd,
    }
}

/// Once a transfer is done it stays done, and a streaming transfer ends on
/// everything but a forwarded block.
pub proof fn lemma_transfer_ends(phase: TransferPhase, event: TransferEvent)
    ensures
        next_phase(TransferPhase::Done, event) == TransferPhase::Done,
        next_phase(TransferPhase::Streaming, event) == TransferPhase::Streaming <==> (event
            == TransferEvent::BlockForwarded || event == TransferEvent::UploadMatched),
        next_phase(phase, event) == TransferPhase::Allocated ==> phase == TransferPhase::Allocated,
{
}

} // verus!
