//! What cutting up texts and putting them together promise together.

use crate::clipboard;
use crate::clipboard::{ClipboardErrorView, ClipboardReassemblerView, PendingTransferView};
use crate::clock;
use crate::protocol::{MAX_CLIPBOARD_CHUNK_PAYLOAD, STANDARD_DATAGRAM_SIZE};
use crate::protocol_laws;
use crate::protocol_v1;
use crate::reassembly;
use crate::video;
use crate::video_laws;
use vstd::prelude::*;
use vstd::utf8;

verus! {

/// A text that is not too long to be sent.
pub open spec fn sendable_text(text: Seq<char>) -> bool {
    clipboard::text_chunks(text).len() <= u16::MAX
}

/// The chunks of a text, one after the other, are the text in UTF-8.
pub proof fn chunks_make_up_the_text(text: Seq<char>)
    ensures
        clipboard::text_chunks(text).len() > 0,
        video::joined(clipboard::text_chunks(text)) == utf8::encode_utf8(text),
{
    let bytes = utf8::encode_utf8(text);
    let chunks = clipboard::text_chunks(text);
    video::lemma_chunk_bounds(bytes.len() as int, MAX_CLIPBOARD_CHUNK_PAYLOAD as int);
    if bytes.len() == 0 {
        assert(chunks.drop_last() =~= Seq::empty());
        assert(video::joined(chunks.drop_last()) =~= Seq::empty());
        assert(video::joined(chunks) =~= bytes);
    } else {
        video_laws::chunks_make_up_the_frame(bytes, MAX_CLIPBOARD_CHUNK_PAYLOAD as int);
    }
}

/// Every datagram of a text fits a standard datagram and is read as the chunk that
/// it was made of.
pub proof fn text_datagrams_fit(text: Seq<char>, transfer_id: u64, index: int)
    requires
        sendable_text(text),
        0 <= index < clipboard::text_chunks(text).len(),
    ensures
        clipboard::text_datagrams(text, transfer_id)[index].len() <= STANDARD_DATAGRAM_SIZE,
        protocol_v1::parsed_packet(clipboard::text_datagrams(text, transfer_id)[index]) == Ok::<
            protocol_v1::PacketView,
            protocol_v1::PacketParseError,
        >(
            protocol_v1::PacketView::Clipboard(clipboard::text_chunk(text, transfer_id, index)),
        ),
{
    let bytes = utf8::encode_utf8(text);
    let chunk = clipboard::text_chunk(text, transfer_id, index);
    if bytes.len() > 0 {
        video::lemma_chunk(bytes, MAX_CLIPBOARD_CHUNK_PAYLOAD as int, index);
    }
    assert(chunk.payload.len() <= MAX_CLIPBOARD_CHUNK_PAYLOAD);
    protocol_v1::packets_round_trip(protocol_v1::PacketView::Clipboard(chunk));
    protocol_laws::lemma_clipboard_round_trip(chunk);
}

/// What a reassembler holds of a text when the chunks `have` have arrived.
pub open spec fn held_text(text: Seq<char>, have: Set<int>, last_updated: u64) -> PendingTransferView {
    let chunks = clipboard::text_chunks(text);
    PendingTransferView {
        total: chunks.len() as u16,
        chunks: Seq::new(
            chunks.len(),
            |i: int|
                if have.contains(i) {
                    Some(chunks[i])
                } else {
                    None
                },
        ),
        last_updated,
    }
}

/// All chunks have arrived.
pub open spec fn all_arrived(count: int, have: Set<int>) -> bool {
    forall|i: int| 0 <= i < count ==> #[trigger] have.contains(i)
}

/// The chunks of one text arrive in the order `order`, at the times `times`: the
/// state of the reassembler before arrival `n`.
pub open spec fn state_before(
    start: ClipboardReassemblerView,
    text: Seq<char>,
    transfer_id: u64,
    order: Seq<int>,
    times: Seq<u64>,
    n: nat,
) -> ClipboardReassemblerView
    decreases n,
{
    if n == 0 {
        start
    } else {
        let k = (n - 1) as nat;
        clipboard::chunk_pushed(
            state_before(start, text, transfer_id, order, times, k),
            clipboard::text_chunk(text, transfer_id, order[k as int]),
            times[k as int],
        ).0
    }
}

/// What comes of arrival `n`.
pub open spec fn outcome_at(
    start: ClipboardReassemblerView,
    text: Seq<char>,
    transfer_id: u64,
    order: Seq<int>,
    times: Seq<u64>,
    n: nat,
) -> Result<Option<Seq<char>>, ClipboardErrorView> {
    clipboard::chunk_pushed(
        state_before(start, text, transfer_id, order, times, n),
        clipboard::text_chunk(text, transfer_id, order[n as int]),
        times[n as int],
    ).1
}

/// Chunks of the text arrive one after the other, no two of them further apart
/// than the reassembler waits.
pub open spec fn arrivals_valid(
    start: ClipboardReassemblerView,
    text: Seq<char>,
    order: Seq<int>,
    times: Seq<u64>,
) -> bool {
    &&& order.len() == times.len()
    &&& forall|k: int|
        0 <= k < order.len() ==> 0 <= #[trigger] order[k] < clipboard::text_chunks(text).len()
    &&& forall|k: int|
        0 < k < times.len() ==> clock::age(#[trigger] times[k], times[k - 1]) <= start.max_age
}

proof fn lemma_all_received(text: Seq<char>, have: Set<int>, last_updated: u64)
    requires
        sendable_text(text),
    ensures
        ({
            let held = held_text(text, have, last_updated);
            &&& (reassembly::received(held.chunks) == held.total) == all_arrived(
                clipboard::text_chunks(text).len() as int,
                have,
            )
            &&& all_arrived(clipboard::text_chunks(text).len() as int, have) ==> reassembly::filled(
                held.chunks,
            ) == clipboard::text_chunks(text)
        }),
{
    let held = held_text(text, have, last_updated);
    let count = clipboard::text_chunks(text).len() as int;
    reassembly::lemma_received_bound(held.chunks);
    if reassembly::received(held.chunks) == count {
        assert forall|i: int| 0 <= i < count implies #[trigger] have.contains(i) by {
            assert(held.chunks[i] is Some);
        }
    }
    if all_arrived(count, have) {
        assert forall|i: int| 0 <= i < count implies (#[trigger] held.chunks[i]) is Some by {
            assert(have.contains(i));
        }
        assert(reassembly::filled(held.chunks) =~= clipboard::text_chunks(text));
    }
}

/// However the chunks of a text are reordered and duplicated, nothing comes out
/// before the last of them, and then the text as it was sent.
pub proof fn texts_survive_reordering(
    start: ClipboardReassemblerView,
    text: Seq<char>,
    transfer_id: u64,
    order: Seq<int>,
    times: Seq<u64>,
    n: nat,
)
    requires
        sendable_text(text),
        arrivals_valid(start, text, order, times),
        !start.transfers.contains_key(transfer_id),
        n < order.len(),
        !all_arrived(clipboard::text_chunks(text).len() as int, video_laws::arrived(order, n)),
    ensures
        outcome_at(start, text, transfer_id, order, times, n) == Ok::<
            Option<Seq<char>>,
            ClipboardErrorView,
        >(
            if all_arrived(
                clipboard::text_chunks(text).len() as int,
                video_laws::arrived(order, n + 1),
            ) {
                Some(text)
            } else {
                None
            },
        ),
{
    lemma_state(start, text, transfer_id, order, times, n);
    lemma_arrival(start, text, transfer_id, order, times, n);
}

spec fn state_holds(
    start: ClipboardReassemblerView,
    text: Seq<char>,
    transfer_id: u64,
    order: Seq<int>,
    times: Seq<u64>,
    n: nat,
) -> bool {
    let state = state_before(start, text, transfer_id, order, times, n);
    &&& state.max_age == start.max_age
    &&& n == 0 ==> !state.transfers.contains_key(transfer_id)
    &&& n > 0 ==> state.transfers.contains_key(transfer_id) && state.transfers[transfer_id]
        == held_text(text, video_laws::arrived(order, n), times[n - 1])
}

proof fn lemma_state(
    start: ClipboardReassemblerView,
    text: Seq<char>,
    transfer_id: u64,
    order: Seq<int>,
    times: Seq<u64>,
    n: nat,
)
    requires
        sendable_text(text),
        arrivals_valid(start, text, order, times),
        !start.transfers.contains_key(transfer_id),
        n <= order.len(),
        !all_arrived(clipboard::text_chunks(text).len() as int, video_laws::arrived(order, n)),
    ensures
        state_holds(start, text, transfer_id, order, times, n),
    decreases n,
{
    if n > 0 {
        let k = (n - 1) as nat;
        let count = clipboard::text_chunks(text).len() as int;
        if all_arrived(count, video_laws::arrived(order, k)) {
            assert forall|i: int| 0 <= i < count implies #[trigger] video_laws::arrived(
                order,
                n,
            ).contains(i) by {
                assert(video_laws::arrived(order, k).contains(i));
                let j = choose|j: int| 0 <= j < k && #[trigger] order[j] == i;
                assert(order[j] == i);
            }
        }
        lemma_state(start, text, transfer_id, order, times, k);
        lemma_arrival(start, text, transfer_id, order, times, k);
    }
}

proof fn lemma_arrival(
    start: ClipboardReassemblerView,
    text: Seq<char>,
    transfer_id: u64,
    order: Seq<int>,
    times: Seq<u64>,
    n: nat,
)
    requires
        sendable_text(text),
        arrivals_valid(start, text, order, times),
        n < order.len(),
        state_holds(start, text, transfer_id, order, times, n),
    ensures
        ({
            let more = video_laws::arrived(order, n + 1);
            let complete = all_arrived(clipboard::text_chunks(text).len() as int, more);
            &&& !complete ==> state_holds(start, text, transfer_id, order, times, n + 1)
            &&& outcome_at(start, text, transfer_id, order, times, n) == Ok::<
                Option<Seq<char>>,
                ClipboardErrorView,
            >(
                if complete {
                    Some(text)
                } else {
                    None
                },
            )
        }),
{
    let state = state_before(start, text, transfer_id, order, times, n);
    let have = video_laws::arrived(order, n);
    let more = video_laws::arrived(order, n + 1);
    let index = order[n as int];
    let now = times[n as int];
    let chunk = clipboard::text_chunk(text, transfer_id, index);
    video_laws::lemma_arrived_next(order, n);
    let transfers = clipboard::recent_transfers(state, now);
    let transfer = if transfers.contains_key(transfer_id) {
        transfers[transfer_id]
    } else {
        clipboard::transfer_new(chunk.total, now)
    };
    let then = if n == 0 {
        now
    } else {
        times[n - 1]
    };
    if n == 0 {
        assert forall|i: int| !have.contains(i) by {}
    }
    assert(transfer.chunks =~= held_text(text, have, then).chunks);
    let grown = clipboard::transfer_push(transfer, chunk, now);
    assert(grown.chunks =~= held_text(text, more, now).chunks);
    lemma_all_received(text, more, now);
    chunks_make_up_the_text(text);
    utf8::encode_utf8_valid_utf8(text);
    utf8::encode_utf8_decode_utf8(text);
}

} // verus!
