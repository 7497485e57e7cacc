//! Keeping the clipboards of two machines the same.
//!
//! A text is sent as chunks that fit into datagrams, and put together again at the
//! other end. What was put on the clipboard from the other end is not sent back.

use crate::clock;
use crate::clock::Clock;
use crate::id_map::{IdMap, Timed};
use crate::protocol::{ClipboardChunk, ClipboardChunkView, MAX_CLIPBOARD_CHUNK_PAYLOAD};
use crate::protocol_v1;
use crate::protocol_v1::Packet;
use crate::reassembly;
use crate::reassembly::join;
use crate::text;
use crate::text::{decimal, same_text};
use crate::video;
use std::time::Duration;
use vstd::prelude::*;
use vstd::utf8;

verus! {

/// Why a clipboard could not be kept the same.
#[derive(Debug, PartialEq, Eq)]
pub enum ClipboardError {
    /// The text needs so many chunks.
    TooManyChunks(usize),
    /// The transfer of this number changed its length.
    ChunkCountChanged(u64),
    /// What arrived is not a text, for this reason.
    NotUtf8(String),
    /// The clipboard of this machine could not be used, for this reason.
    Backend(String),
}

/// Why a clipboard could not be kept the same.
#[verifier::ext_equal]
pub enum ClipboardErrorView {
    TooManyChunks(usize),
    ChunkCountChanged(u64),
    NotUtf8(Seq<char>),
    Backend(Seq<char>),
}

impl View for ClipboardError {
    type V = ClipboardErrorView;

    open spec fn view(&self) -> ClipboardErrorView {
        match self {
            ClipboardError::TooManyChunks(count) => ClipboardErrorView::TooManyChunks(*count),
            ClipboardError::ChunkCountChanged(id) => ClipboardErrorView::ChunkCountChanged(*id),
            ClipboardError::NotUtf8(reason) => ClipboardErrorView::NotUtf8(reason@),
            ClipboardError::Backend(reason) => ClipboardErrorView::Backend(reason@),
        }
    }
}

impl ClipboardError {
    pub open spec fn message_text(error: ClipboardErrorView) -> Seq<char> {
        match error {
            ClipboardErrorView::TooManyChunks(count) => "clipboard payload needs "@
                + text::decimal_text(count as nat) + " chunks, max supported is 65535"@,
            ClipboardErrorView::ChunkCountChanged(id) => "clipboard transfer "@
                + text::decimal_text(id as nat) + " changed chunk count"@,
            ClipboardErrorView::NotUtf8(reason) => "clipboard payload is not UTF-8: "@ + reason,
            ClipboardErrorView::Backend(reason) => reason,
        }
    }

    /// What to tell the user.
    pub fn message(&self) -> (message: String)
        ensures
            message@ == Self::message_text(self@),
    {
        match self {
            ClipboardError::TooManyChunks(count) => {
                let mut message = "clipboard payload needs ".to_owned();
                message.append(decimal(*count as u64).as_str());
                message.append(" chunks, max supported is 65535");
                message
            },
            ClipboardError::ChunkCountChanged(id) => {
                let mut message = "clipboard transfer ".to_owned();
                message.append(decimal(*id).as_str());
                message.append(" changed chunk count");
                message
            },
            ClipboardError::NotUtf8(reason) => {
                let mut message = "clipboard payload is not UTF-8: ".to_owned();
                message.append(reason.as_str());
                message
            },
            ClipboardError::Backend(reason) => reason.clone(),
        }
    }
}

/// What `String::from_utf8` says of bytes that are not a text.
pub uninterp spec fn utf8_complaint(bytes: Seq<u8>) -> Seq<char>;

/// `String::from_utf8` gives the text that bytes spell in UTF-8, if they do; if not,
/// it says why, for which the name `utf8_complaint` stands.
#[verifier::external_body]
fn text_of_bytes(bytes: Vec<u8>) -> (outcome: Result<String, String>)
    ensures
        match outcome {
            Ok(text) => utf8::valid_utf8(bytes@) && text@ == utf8::decode_utf8(bytes@),
            Err(reason) => !utf8::valid_utf8(bytes@) && reason@ == utf8_complaint(bytes@),
        },
{
    String::from_utf8(bytes).map_err(|error| error.to_string())
}

/// The chunks that a text is sent as; an empty text is one empty chunk.
pub open spec fn text_chunks(text: Seq<char>) -> Seq<Seq<u8>> {
    let bytes = utf8::encode_utf8(text);
    if bytes.len() == 0 {
        seq![Seq::empty()]
    } else {
        video::chunks_of(bytes, MAX_CLIPBOARD_CHUNK_PAYLOAD as int)
    }
}

/// Chunk `index` of the transfer of a text.
pub open spec fn text_chunk(text: Seq<char>, transfer_id: u64, index: int) -> ClipboardChunkView {
    ClipboardChunkView {
        transfer_id,
        index: index as u16,
        total: text_chunks(text).len() as u16,
        payload: text_chunks(text)[index],
    }
}

/// The datagrams that carry a text.
pub open spec fn text_datagrams(text: Seq<char>, transfer_id: u64) -> Seq<Seq<u8>> {
    Seq::new(
        text_chunks(text).len(),
        |index: int|
            protocol_v1::encode_packet(
                protocol_v1::PacketView::Clipboard(text_chunk(text, transfer_id, index)),
            ),
    )
}

/// What a list of datagrams holds.
pub open spec fn datagram_views(datagrams: Seq<Vec<u8>>) -> Seq<Seq<u8>> {
    datagrams.map_values(|datagram: Vec<u8>| datagram@)
}

/// Numbers the texts that it cuts up.
#[derive(Clone, Copy, Debug, PartialEq, Eq, Structural)]
pub struct ClipboardSender {
    pub next_transfer_id: u64,
}

impl ClipboardSender {
    pub fn new() -> (sender: Self)
        ensures
            sender.next_transfer_id == 1,
    {
        ClipboardSender { next_transfer_id: 1 }
    }

    /// The datagrams that carry `text`, under a number that no text before it had.
    pub fn send_text(&mut self, text: &str) -> (outcome: Result<Vec<Vec<u8>>, ClipboardError>)
        ensures
            match outcome {
                Ok(datagrams) => {
                    &&& text_chunks(text@).len() <= u16::MAX
                    &&& datagram_views(datagrams@) == text_datagrams(
                        text@,
                        old(self).next_transfer_id,
                    )
                    &&& final(self).next_transfer_id == old(self).next_transfer_id.wrapping_add(1)
                },
                Err(error) => {
                    &&& text_chunks(text@).len() > u16::MAX
                    &&& error@ == ClipboardErrorView::TooManyChunks(
                        text_chunks(text@).len() as usize,
                    )
                    &&& *final(self) == *old(self)
                },
            },
    {
        let bytes = text.as_bytes();
        let ghost chunks = text_chunks(text@);
        let size: usize = MAX_CLIPBOARD_CHUNK_PAYLOAD;
        let whole: usize = bytes.len() / size;
        let count: usize = if bytes.len() == 0 {
            1
        } else if bytes.len() % size == 0 {
            whole
        } else {
            whole + 1
        };
        proof {
            assert(bytes@ == utf8::encode_utf8(text@));
            assert(count == chunks.len());
        }
        if count > u16::MAX as usize {
            return Err(ClipboardError::TooManyChunks(count));
        }
        let transfer_id: u64 = self.next_transfer_id;
        self.next_transfer_id = transfer_id.wrapping_add(1);
        let mut datagrams: Vec<Vec<u8>> = Vec::new();
        let mut index: usize = 0;
        while index < count
            invariant
                index <= count <= u16::MAX,
                count == chunks.len(),
                chunks == text_chunks(text@),
                bytes@ == utf8::encode_utf8(text@),
                size == MAX_CLIPBOARD_CHUNK_PAYLOAD,
                datagram_views(datagrams@) == text_datagrams(text@, transfer_id).take(index as int),
            decreases count - index,
        {
            let start: usize = index * size;
            let payload = if bytes.len() == 0 {
                bytes
            } else {
                proof {
                    video::lemma_chunk(bytes@, size as int, index as int);
                }
                let end: usize = if bytes.len() - start < size {
                    bytes.len()
                } else {
                    start + size
                };
                vstd::slice::slice_subrange(bytes, start, end)
            };
            assert(payload@ =~= chunks[index as int]);
            let mut datagram: Vec<u8> = Vec::new();
            Packet::Clipboard(
                ClipboardChunk { transfer_id, index: index as u16, total: count as u16, payload },
            ).encode(&mut datagram);
            let ghost sent = text_datagrams(text@, transfer_id);
            assert(datagram@ == sent[index as int]);
            let ghost before = datagrams@;
            datagrams.push(datagram);
            assert(datagram_views(datagrams@) =~= datagram_views(before).push(datagram@));
            assert(sent.take(index + 1) =~= sent.take(index as int).push(sent[index as int]));
            index += 1;
        }
        assert(text_datagrams(text@, transfer_id).take(count as int) =~= text_datagrams(
            text@,
            transfer_id,
        ));
        Ok(datagrams)
    }
}

/// What has arrived of a text.
#[verifier::ext_equal]
pub struct PendingTransferView {
    pub total: u16,
    pub chunks: Seq<Option<Seq<u8>>>,
    pub last_updated: u64,
}

struct PendingClipboardTransfer {
    total: u16,
    chunks: Vec<Option<Vec<u8>>>,
    received: usize,
    last_updated: u64,
}

impl View for PendingClipboardTransfer {
    type V = PendingTransferView;

    closed spec fn view(&self) -> PendingTransferView {
        PendingTransferView {
            total: self.total,
            chunks: reassembly::chunk_views(self.chunks@),
            last_updated: self.last_updated,
        }
    }
}

impl Timed for PendingClipboardTransfer {
    closed spec fn stamp_of(held: PendingTransferView) -> u64 {
        held.last_updated
    }

    fn stamp(&self) -> (time: u64) {
        self.last_updated
    }
}

/// What is known of a text when its first chunk comes.
pub open spec fn transfer_new(total: u16, now: u64) -> PendingTransferView {
    PendingTransferView {
        total,
        chunks: Seq::new(total as nat, |i: int| None),
        last_updated: now,
    }
}

/// A chunk arrives. What has arrived before stays as it is.
pub open spec fn transfer_push(
    transfer: PendingTransferView,
    chunk: ClipboardChunkView,
    now: u64,
) -> PendingTransferView {
    let index = chunk.index as int;
    PendingTransferView {
        chunks: if transfer.chunks[index] is None {
            transfer.chunks.update(index, Some(chunk.payload))
        } else {
            transfer.chunks
        },
        last_updated: now,
        ..transfer
    }
}

impl PendingClipboardTransfer {
    #[verifier::type_invariant]
    spec fn consistent(self) -> bool {
        &&& self.chunks@.len() == self.total
        &&& self.received == reassembly::received(self@.chunks)
    }

    fn new(total: u16, now: u64) -> (transfer: Self)
        ensures
            transfer@ == transfer_new(total, now),
    {
        let mut chunks: Vec<Option<Vec<u8>>> = Vec::new();
        let mut i: u16 = 0;
        while i < total
            invariant
                i <= total,
                chunks@.len() == i,
                forall|k: int| 0 <= k < i ==> (#[trigger] chunks@[k]) is None,
            decreases total - i,
        {
            chunks.push(None);
            i += 1;
        }
        proof {
            assert(reassembly::chunk_views(chunks@) =~= transfer_new(total, now).chunks);
            reassembly::lemma_received_none(total as nat);
        }
        PendingClipboardTransfer { total, chunks, received: 0, last_updated: now }
    }

    fn push(self, chunk: &ClipboardChunk<'_>, now: u64) -> (transfer: Self)
        requires
            chunk.index < self@.total,
        ensures
            transfer@ == transfer_push(self@, chunk@, now),
    {
        proof {
            use_type_invariant(&self);
        }
        let ghost before = self@;
        let index: usize = chunk.index as usize;
        if self.chunks[index].is_some() {
            return PendingClipboardTransfer { last_updated: now, ..self };
        }
        let payload = vstd::slice::slice_to_vec(chunk.payload);
        proof {
            reassembly::lemma_received_update(before.chunks, index as int, payload@);
            reassembly::lemma_received_bound(before.chunks);
        }
        let mut chunks = self.chunks;
        chunks[index] = Some(payload);
        assert(reassembly::chunk_views(chunks@) =~= before.chunks.update(
            index as int,
            Some(payload@),
        ));
        PendingClipboardTransfer {
            chunks,
            received: self.received + 1,
            last_updated: now,
            ..self
        }
    }

    fn is_complete(&self) -> (complete: bool)
        ensures
            complete == (reassembly::received(self@.chunks) == self@.total),
    {
        proof {
            use_type_invariant(self);
        }
        self.received == self.total as usize
    }

    fn into_bytes(self) -> (bytes: Vec<u8>)
        ensures
            bytes@ == video::joined(reassembly::filled(self@.chunks)),
    {
        join(&self.chunks)
    }
}

/// What a reassembler knows.
#[verifier::ext_equal]
pub struct ClipboardReassemblerView {
    pub transfers: Map<u64, PendingTransferView>,
    /// How many nanoseconds a text waits for its next chunk.
    pub max_age: u128,
}

/// The texts that are still waited for.
pub open spec fn recent_transfers(state: ClipboardReassemblerView, now: u64) -> Map<
    u64,
    PendingTransferView,
> {
    Map::new(
        |id: u64|
            state.transfers.contains_key(id) && clock::age(now, state.transfers[id].last_updated)
                <= state.max_age,
        |id: u64| state.transfers[id],
    )
}

/// What a chunk does to a reassembler, and what comes of it.
pub open spec fn chunk_pushed(
    state: ClipboardReassemblerView,
    chunk: ClipboardChunkView,
    now: u64,
) -> (ClipboardReassemblerView, Result<Option<Seq<char>>, ClipboardErrorView>) {
    let id = chunk.transfer_id;
    let transfers = recent_transfers(state, now);
    let transfer = if transfers.contains_key(id) {
        transfers[id]
    } else {
        transfer_new(chunk.total, now)
    };
    let grown = transfer_push(transfer, chunk, now);
    let bytes = video::joined(reassembly::filled(grown.chunks));
    let without = ClipboardReassemblerView { transfers: transfers.remove(id), ..state };
    if transfer.total != chunk.total {
        (without, Err(ClipboardErrorView::ChunkCountChanged(id)))
    } else if reassembly::received(grown.chunks) != grown.total {
        (ClipboardReassemblerView { transfers: transfers.insert(id, grown), ..state }, Ok(None))
    } else if utf8::valid_utf8(bytes) {
        (without, Ok(Some(utf8::decode_utf8(bytes))))
    } else {
        (without, Err(ClipboardErrorView::NotUtf8(utf8_complaint(bytes))))
    }
}

/// The outcome of a push, with the characters of the text in place of the text.
pub open spec fn text_outcome(outcome: Result<Option<String>, ClipboardError>) -> Result<
    Option<Seq<char>>,
    ClipboardErrorView,
> {
    match outcome {
        Ok(Some(text)) => Ok(Some(text@)),
        Ok(None) => Ok(None),
        Err(error) => Err(error@),
    }
}

pub struct ClipboardReassembler {
    transfers: IdMap<PendingClipboardTransfer>,
    max_age: u128,
    clock: Clock,
}

impl View for ClipboardReassembler {
    type V = ClipboardReassemblerView;

    closed spec fn view(&self) -> ClipboardReassemblerView {
        ClipboardReassemblerView { transfers: self.transfers@, max_age: self.max_age }
    }
}

impl ClipboardReassembler {
    /// The clock that `push` reads.
    pub closed spec fn clock(&self) -> Clock {
        self.clock
    }

    /// A reassembler in which texts wait `max_age` for their next chunk.
    pub fn new(max_age: Duration) -> (reassembler: Self)
        ensures
            reassembler@ == (ClipboardReassemblerView {
                transfers: Map::empty(),
                max_age: clock::duration_nanos(max_age),
            }),
            call_ensures(Clock::start, (), reassembler.clock()),
    {
        Self::with_age(max_age.as_nanos())
    }

    /// A reassembler in which texts wait `max_age` nanoseconds for their next chunk.
    pub fn with_age(max_age: u128) -> (reassembler: Self)
        ensures
            reassembler@ == (ClipboardReassemblerView { transfers: Map::empty(), max_age }),
            call_ensures(Clock::start, (), reassembler.clock()),
    {
        ClipboardReassembler { transfers: IdMap::new(), max_age, clock: Clock::start() }
    }

    /// Takes in a chunk that arrives now. The text comes back with the last chunk.
    pub fn push(&mut self, chunk: ClipboardChunk<'_>) -> (outcome: Result<
        Option<String>,
        ClipboardError,
    >)
        requires
            chunk.index < chunk.total,
        ensures
            exists|now: u64|
                {
                    &&& old(self).clock().shows(now)
                    &&& #[trigger] chunk_pushed(old(self)@, chunk@, now) == (
                        final(self)@,
                        text_outcome(outcome),
                    )
                },
            final(self).clock() == old(self).clock(),
    {
        let now: u64 = self.clock.now();
        self.push_at(chunk, now)
    }

    /// Takes in a chunk that arrives when the clock shows `now`.
    pub fn push_at(&mut self, chunk: ClipboardChunk<'_>, now: u64) -> (outcome: Result<
        Option<String>,
        ClipboardError,
    >)
        requires
            chunk.index < chunk.total,
        ensures
            chunk_pushed(old(self)@, chunk@, now) == (final(self)@, text_outcome(outcome)),
            final(self).clock() == old(self).clock(),
    {
        let _ = self.transfers.retain_recent(now, self.max_age);
        let ghost transfers = self.transfers@;
        assert(transfers =~= recent_transfers(old(self)@, now));
        let transfer_id: u64 = chunk.transfer_id;
        let transfer = match self.transfers.remove(transfer_id) {
            Some(transfer) => transfer,
            None => PendingClipboardTransfer::new(chunk.total, now),
        };
        if transfer.total != chunk.total {
            return Err(ClipboardError::ChunkCountChanged(transfer_id));
        }
        let transfer = transfer.push(&chunk, now);
        if !transfer.is_complete() {
            let ghost grown = transfer@;
            self.transfers.insert(transfer_id, transfer);
            assert(transfers.remove(transfer_id).insert(transfer_id, grown) =~= transfers.insert(
                transfer_id,
                grown,
            ));
            return Ok(None);
        }
        match text_of_bytes(transfer.into_bytes()) {
            Ok(text) => Ok(Some(text)),
            Err(reason) => Err(ClipboardError::NotUtf8(reason)),
        }
    }
}

/// How long to wait between two looks at the clipboard.
pub const CLIPBOARD_POLL_INTERVAL_MS: u64 = 250;

/// How many nanoseconds a text waits for its next chunk.
pub const CLIPBOARD_TRANSFER_TTL: u64 = 10_000_000_000;

/// The clipboard of a machine.
pub trait ClipboardBackend {
    fn get_text(&mut self) -> Result<Option<String>, ClipboardError>;

    fn set_text(&mut self, text: &str) -> Result<(), ClipboardError>;
}

/// The clipboard of a machine that has none.
#[derive(Clone, Copy, Debug, PartialEq, Eq, Structural)]
pub struct PlatformClipboard;

impl PlatformClipboard {
    pub fn new() -> (clipboard: Self)
        ensures
            clipboard == PlatformClipboard,
    {
        PlatformClipboard
    }
}

impl ClipboardBackend for PlatformClipboard {
    fn get_text(&mut self) -> (read: Result<Option<String>, ClipboardError>)
        ensures
            read == Ok::<Option<String>, ClipboardError>(None),
    {
        Ok(None)
    }

    fn set_text(&mut self, _text: &str) -> (written: Result<(), ClipboardError>)
        ensures
            written == Ok::<(), ClipboardError>(()),
    {
        Ok(())
    }
}

/// What to do after a look at the clipboard.
#[derive(Debug, PartialEq, Eq)]
pub enum ClipboardPoll {
    /// There is nothing new.
    Nothing,
    /// The text is new: send the datagrams.
    Send { text: String, datagrams: Vec<Vec<u8>> },
    /// Something went wrong.
    Failed(ClipboardError),
}

/// A clipboard that is kept the same as the one at the other end.
pub struct Clipboard<B: ClipboardBackend> {
    pub backend: B,
    pub sender: ClipboardSender,
    pub reassembler: ClipboardReassembler,
    /// The text that both ends have.
    pub last_text: Option<String>,
}

pub type SystemClipboard = Clipboard<PlatformClipboard>;

impl<B: ClipboardBackend> Clipboard<B> {
    /// The text that both ends have.
    pub open spec fn shared_text(&self) -> Option<Seq<char>> {
        match self.last_text {
            Some(text) => Some(text@),
            None => None,
        }
    }

    /// A clipboard whose ends have no text yet.
    pub fn new(backend: B, sender: ClipboardSender) -> (clipboard: Self)
        ensures
            clipboard.backend == backend,
            clipboard.sender == sender,
            clipboard.reassembler@ == (ClipboardReassemblerView {
                transfers: Map::empty(),
                max_age: CLIPBOARD_TRANSFER_TTL as u128,
            }),
            call_ensures(Clock::start, (), clipboard.reassembler.clock()),
            clipboard.last_text is None,
    {
        Clipboard {
            backend,
            sender,
            reassembler: ClipboardReassembler::with_age(CLIPBOARD_TRANSFER_TTL as u128),
            last_text: None,
        }
    }

    /// What comes of a look at a clipboard that held what was read from it.
    pub open spec fn considered(
        before: Self,
        read: Result<Option<String>, ClipboardError>,
        after: Self,
        poll: ClipboardPoll,
    ) -> bool {
        &&& after.last_text == before.last_text
        &&& after.reassembler == before.reassembler
        &&& match read {
            Err(error) => poll == ClipboardPoll::Failed(error) && after.sender == before.sender,
            Ok(None) => poll is Nothing && after.sender == before.sender,
            Ok(Some(new)) => if before.shared_text() == Some(new@) {
                poll is Nothing && after.sender == before.sender
            } else if text_chunks(new@).len() > u16::MAX {
                &&& poll matches ClipboardPoll::Failed(error)
                &&& error@ == ClipboardErrorView::TooManyChunks(text_chunks(new@).len() as usize)
                &&& after.sender == before.sender
            } else {
                &&& poll matches ClipboardPoll::Send { text, datagrams }
                &&& text@ == new@
                &&& datagram_views(datagrams@) == text_datagrams(
                    new@,
                    before.sender.next_transfer_id,
                )
                &&& after.sender.next_transfer_id == before.sender.next_transfer_id.wrapping_add(1)
            },
        }
    }

    /// Looks at the clipboard of this machine and says what is to be done. What the
    /// clipboard holds is up to the backend: whatever `get_text` gave, `considered` says
    /// what comes of it.
    pub fn poll(&mut self) -> (poll: ClipboardPoll)
        ensures
            exists|backend: &mut B, read: Result<Option<String>, ClipboardError>|
                {
                    &&& #[trigger] call_ensures(B::get_text, (backend,), read)
                    &&& *backend == old(self).backend
                    &&& *final(backend) == final(self).backend
                    &&& Self::considered(*old(self), read, *final(self), poll)
                },
    {
        let read = self.backend.get_text();
        self.consider(read)
    }

    /// What is to be done when the clipboard holds what was read from it.
    pub fn consider(&mut self, read: Result<Option<String>, ClipboardError>) -> (poll:
        ClipboardPoll)
        ensures
            final(self).backend == old(self).backend,
            Self::considered(*old(self), read, *final(self), poll),
    {
        let new = match read {
            Err(error) => return ClipboardPoll::Failed(error),
            Ok(None) => return ClipboardPoll::Nothing,
            Ok(Some(new)) => new,
        };
        let unchanged = match &self.last_text {
            Some(last) => same_text(last.as_str(), new.as_str()),
            None => false,
        };
        if unchanged {
            return ClipboardPoll::Nothing;
        }
        match self.sender.send_text(new.as_str()) {
            Ok(datagrams) => ClipboardPoll::Send { text: new, datagrams },
            Err(error) => ClipboardPoll::Failed(error),
        }
    }

    /// The datagrams of `text` have been sent: both ends have it now.
    pub fn sent(&mut self, text: String)
        ensures
            final(self).shared_text() == Some(text@),
            final(self).backend == old(self).backend,
            final(self).sender == old(self).sender,
            final(self).reassembler == old(self).reassembler,
    {
        self.last_text = Some(text);
    }

    /// A chunk arrives from the other end. A text that is complete goes onto the
    /// clipboard of this machine, and is then what both ends have.
    pub fn receive_chunk(&mut self, chunk: ClipboardChunk<'_>, now: u64) -> (outcome: Result<
        (),
        ClipboardError,
    >)
        requires
            chunk.index < chunk.total,
        ensures
            final(self).sender == old(self).sender,
            final(self).reassembler.clock() == old(self).reassembler.clock(),
            ({
                let (reassembler, arrived) = chunk_pushed(old(self).reassembler@, chunk@, now);
                &&& final(self).reassembler@ == reassembler
                &&& match arrived {
                    Err(error) => {
                        &&& outcome matches Err(reported)
                        &&& reported@ == error
                        &&& final(self).last_text == old(self).last_text
                        &&& final(self).backend == old(self).backend
                    },
                    Ok(None) => {
                        &&& outcome is Ok
                        &&& final(self).last_text == old(self).last_text
                        &&& final(self).backend == old(self).backend
                    },
                    Ok(Some(text)) => {
                        &&& exists|backend: &mut B, put: &str|
                            {
                                &&& #[trigger] call_ensures(B::set_text, (backend, put), outcome)
                                &&& *backend == old(self).backend
                                &&& *final(backend) == final(self).backend
                                &&& put@ == text
                            }
                        &&& if outcome is Ok {
                            final(self).shared_text() == Some(text)
                        } else {
                            final(self).last_text == old(self).last_text
                        }
                    },
                }
            }),
    {
        match self.reassembler.push_at(chunk, now) {
            Err(error) => Err(error),
            Ok(None) => Ok(()),
            Ok(Some(text)) => {
                let written = self.backend.set_text(text.as_str());
                self.applied(text, written)
            },
        }
    }

    /// A text from the other end was written to the clipboard with this outcome.
    pub fn applied(&mut self, text: String, written: Result<(), ClipboardError>) -> (outcome: Result<
        (),
        ClipboardError,
    >)
        ensures
            outcome == written,
            final(self).backend == old(self).backend,
            final(self).sender == old(self).sender,
            final(self).reassembler == old(self).reassembler,
            final(self).shared_text() == if written is Ok {
                Some(text@)
            } else {
                old(self).shared_text()
            },
            written is Err ==> final(self).last_text == old(self).last_text,
    {
        if written.is_ok() {
            self.last_text = Some(text);
        }
        written
    }
}

} // verus!
