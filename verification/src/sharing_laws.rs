//! What two machines that share a clipboard can rely on.

use crate::clipboard;
use crate::clipboard::{
    Clipboard, ClipboardBackend, ClipboardError, ClipboardErrorView, ClipboardPoll,
    ClipboardReassemblerView, ClipboardSender,
};
use crate::clipboard_laws;
use crate::clock;
use crate::protocol::ClipboardChunkView;
use crate::protocol_v1;
use crate::protocol_v1::PacketParseError;
use crate::reassembly;
use crate::video;
use vstd::prelude::*;
use vstd::utf8;

verus! {

/// The text has been waiting for its next chunk for no longer than it may.
pub open spec fn still_waited_for(state: ClipboardReassemblerView, id: u64, now: u64) -> bool {
    state.transfers.contains_key(id) && clock::age(now, state.transfers[id].last_updated)
        <= state.max_age
}

/// A chunk leaves alone what has arrived of all other texts that are still waited for, and
/// nothing of others appears.
pub proof fn other_texts_are_left_alone(
    state: ClipboardReassemblerView,
    chunk: ClipboardChunkView,
    other: u64,
    now: u64,
)
    requires
        other != chunk.transfer_id,
    ensures
        ({
            let after = clipboard::chunk_pushed(state, chunk, now).0;
            &&& after.transfers.contains_key(other) == still_waited_for(state, other, now)
            &&& after.transfers.contains_key(other) ==> after.transfers[other]
                == state.transfers[other]
            &&& after.max_age == state.max_age
        }),
{
}

/// A chunk that contradicts the others about how many there are ends its text.
pub proof fn contradictions_end_a_text(
    state: ClipboardReassemblerView,
    chunk: ClipboardChunkView,
    now: u64,
)
    requires
        still_waited_for(state, chunk.transfer_id, now),
        state.transfers[chunk.transfer_id].total != chunk.total,
    ensures
        ({
            let (after, outcome) = clipboard::chunk_pushed(state, chunk, now);
            &&& outcome == Err::<Option<Seq<char>>, _>(
                ClipboardErrorView::ChunkCountChanged(chunk.transfer_id),
            )
            &&& !after.transfers.contains_key(chunk.transfer_id)
        }),
{
}

/// A text that is there is not waited for any more, whether or not it can be read; one that is
/// not is.
pub proof fn finished_texts_are_let_go(
    state: ClipboardReassemblerView,
    chunk: ClipboardChunkView,
    now: u64,
)
    ensures
        ({
            let (after, outcome) = clipboard::chunk_pushed(state, chunk, now);
            after.transfers.contains_key(chunk.transfer_id) == (outcome == Ok::<
                Option<Seq<char>>,
                ClipboardErrorView,
            >(None))
        }),
{
}

/// A text is cut into chunks of 1024 bytes, but for the last one, and as few of them as hold
/// it; an empty text is one empty chunk.
pub proof fn texts_take_few_chunks(text: Seq<char>, i: int)
    requires
        0 <= i < clipboard::text_chunks(text).len(),
    ensures
        ({
            let len = utf8::encode_utf8(text).len();
            let count = clipboard::text_chunks(text).len();
            &&& len == 0 ==> count == 1
            &&& len > 0 ==> (count - 1) * 1024 < len <= count * 1024
            &&& i < count - 1 ==> clipboard::text_chunks(text)[i].len() == 1024
            &&& clipboard::text_chunks(text)[i].len() <= 1024
        }),
{
    let bytes = utf8::encode_utf8(text);
    if bytes.len() > 0 {
        video::lemma_chunk_bounds(bytes.len() as int, 1024);
        video::lemma_chunk(bytes, 1024, i);
    }
}

/// The datagrams carry the text: one for each of its chunks, in order, under the given number.
pub open spec fn carry_the_text(datagrams: Seq<Vec<u8>>, text: Seq<char>, id: u64) -> bool {
    let chunks = clipboard::text_chunks(text);
    &&& datagrams.len() == chunks.len()
    &&& forall|i: int|
        0 <= i < datagrams.len() ==> protocol_v1::parsed_packet((#[trigger] datagrams[i])@) == Ok::<
            protocol_v1::PacketView,
            PacketParseError,
        >(
            protocol_v1::PacketView::Clipboard(
                ClipboardChunkView {
                    transfer_id: id,
                    index: i as u16,
                    total: chunks.len() as u16,
                    payload: chunks[i],
                },
            ),
        )
}

proof fn lemma_carried(datagrams: Seq<Vec<u8>>, text: Seq<char>, id: u64)
    requires
        clipboard_laws::sendable_text(text),
        clipboard::datagram_views(datagrams) == clipboard::text_datagrams(text, id),
    ensures
        carry_the_text(datagrams, text, id),
{
    let views = clipboard::datagram_views(datagrams);
    assert(views.len() == datagrams.len());
    assert forall|i: int| 0 <= i < datagrams.len() implies protocol_v1::parsed_packet(
        (#[trigger] datagrams[i])@,
    ) == Ok::<protocol_v1::PacketView, PacketParseError>(
        protocol_v1::PacketView::Clipboard(
            ClipboardChunkView {
                transfer_id: id,
                index: i as u16,
                total: clipboard::text_chunks(text).len() as u16,
                payload: clipboard::text_chunks(text)[i],
            },
        ),
    ) by {
        assert(views[i] == datagrams[i]@);
        clipboard_laws::text_datagrams_fit(text, id, i);
    }
}

/// A text of up to 65535 chunks is sent, under a number of its own.
pub proof fn texts_are_sent(text: &str, outcome: Result<Vec<Vec<u8>>, ClipboardError>)
    ensures
        forall|sender: &mut ClipboardSender| #[trigger]
            call_ensures(ClipboardSender::send_text, (sender, text), outcome) ==> {
                let fits = clipboard::text_chunks(text@).len() <= 65_535;
                &&& outcome is Ok == fits
                &&& outcome matches Ok(datagrams) ==> carry_the_text(
                    datagrams@,
                    text@,
                    sender.next_transfer_id,
                ) && final(sender).next_transfer_id == sender.next_transfer_id.wrapping_add(1)
                &&& outcome is Err ==> *final(sender) == *sender
            },
{
    assert forall|sender: &mut ClipboardSender| #[trigger]
        call_ensures(ClipboardSender::send_text, (sender, text), outcome) implies {
        let fits = clipboard::text_chunks(text@).len() <= 65_535;
        &&& outcome is Ok == fits
        &&& outcome matches Ok(datagrams) ==> carry_the_text(
            datagrams@,
            text@,
            sender.next_transfer_id,
        ) && final(sender).next_transfer_id == sender.next_transfer_id.wrapping_add(1)
        &&& outcome is Err ==> *final(sender) == *sender
    } by {
        if let Ok(datagrams) = outcome {
            lemma_carried(datagrams@, text@, sender.next_transfer_id);
        }
    }
}

/// A text that is new on this machine is sent to the other; one that both have is not, nor
/// anything where there is no text. What went wrong is reported as it is.
pub proof fn new_texts_are_shared<B: ClipboardBackend>(
    before: Clipboard<B>,
    read: Result<Option<String>, ClipboardError>,
    after: Clipboard<B>,
    poll: ClipboardPoll,
)
    requires
        Clipboard::<B>::considered(before, read, after, poll),
    ensures
        read matches Err(error) ==> poll == ClipboardPoll::Failed(error),
        read == Ok::<Option<String>, ClipboardError>(None) ==> poll is Nothing,
        read matches Ok(Some(text)) ==> {
            let known = before.last_text is Some && before.last_text->0@ == text@;
            let fits = clipboard::text_chunks(text@).len() <= 65_535;
            &&& known ==> poll is Nothing
            &&& !known && fits ==> (poll matches ClipboardPoll::Send { text: sent, datagrams }
                && sent@ == text@ && carry_the_text(
                datagrams@,
                text@,
                before.sender.next_transfer_id,
            ))
            &&& !known && !fits ==> (poll matches ClipboardPoll::Failed(error) && error@
                == ClipboardErrorView::TooManyChunks(
                clipboard::text_chunks(text@).len() as usize,
            ))
        },
        !(poll is Send) ==> after.sender == before.sender,
        poll is Send ==> after.sender.next_transfer_id
            == before.sender.next_transfer_id.wrapping_add(1),
        after.last_text == before.last_text,
        after.reassembler == before.reassembler,
{
    if let Ok(Some(text)) = read {
        if let ClipboardPoll::Send { text: sent, datagrams } = poll {
            lemma_carried(datagrams@, text@, before.sender.next_transfer_id);
        }
    }
}

/// What was sent, or came from the other machine and could be put on the clipboard, is what
/// both machines have, and is not sent back.
pub proof fn shared_texts_are_not_sent_back<B: ClipboardBackend>(
    text: String,
    written: Result<(), ClipboardError>,
    outcome: Result<(), ClipboardError>,
    read: String,
    after: Clipboard<B>,
    poll: ClipboardPoll,
)
    requires
        read@ == text@,
    ensures
        forall|shared: &mut Clipboard<B>| #[trigger]
            call_ensures(Clipboard::<B>::sent, (shared, text), ()) ==> {
                &&& (*final(shared)).shared_text() == Some(text@)
                &&& Clipboard::<B>::considered(*final(shared), Ok(Some(read)), after, poll)
                    ==> poll is Nothing
            },
        forall|shared: &mut Clipboard<B>| #[trigger]
            call_ensures(Clipboard::<B>::applied, (shared, text, written), outcome) ==> {
                &&& outcome == written
                &&& written is Ok ==> (*final(shared)).shared_text() == Some(text@) && (
                Clipboard::<B>::considered(*final(shared), Ok(Some(read)), after, poll)
                    ==> poll is Nothing)
                &&& written is Err ==> (*final(shared)).shared_text() == (*shared).shared_text()
            },
{
}

/// A chunk that has arrived before changes nothing but the time for which its text is waited for.
pub proof fn repeated_chunks_change_nothing(
    state: ClipboardReassemblerView,
    chunk: ClipboardChunkView,
    now: u64,
)
    requires
        still_waited_for(state, chunk.transfer_id, now),
        state.transfers[chunk.transfer_id].total == chunk.total,
        state.transfers[chunk.transfer_id].chunks[chunk.index as int] is Some,
        reassembly::received(state.transfers[chunk.transfer_id].chunks) < chunk.total,
    ensures
        ({
            let id = chunk.transfer_id;
            let (after, outcome) = clipboard::chunk_pushed(state, chunk, now);
            &&& outcome == Ok::<Option<Seq<char>>, ClipboardErrorView>(None)
            &&& after.transfers.contains_key(id)
            &&& after.transfers[id].chunks == state.transfers[id].chunks
            &&& after.transfers[id].total == state.transfers[id].total
            &&& after.transfers[id].last_updated == now
        }),
{
}

/// A text of one chunk is there at once if it is one, and is refused if it is not UTF-8.
pub proof fn broken_texts_are_refused(
    state: ClipboardReassemblerView,
    chunk: ClipboardChunkView,
    now: u64,
)
    requires
        !still_waited_for(state, chunk.transfer_id, now),
        chunk.total == 1,
        chunk.index == 0,
    ensures
        ({
            let (after, outcome) = clipboard::chunk_pushed(state, chunk, now);
            &&& !after.transfers.contains_key(chunk.transfer_id)
            &&& utf8::valid_utf8(chunk.payload) ==> outcome == Ok::<_, ClipboardErrorView>(
                Some(utf8::decode_utf8(chunk.payload)),
            )
            &&& !utf8::valid_utf8(chunk.payload) ==> (outcome matches Err(error) && error
                is NotUtf8)
        }),
{
    let transfer = clipboard::transfer_new(chunk.total, now);
    let grown = clipboard::transfer_push(transfer, chunk, now);
    let filled = reassembly::filled(grown.chunks);
    reveal_with_fuel(reassembly::received, 2);
    reveal_with_fuel(video::joined, 2);
    assert(filled =~= seq![chunk.payload]);
    assert(filled.drop_last() =~= Seq::empty());
    assert(video::joined(filled) =~= chunk.payload);
}

} // verus!
