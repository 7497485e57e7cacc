//! What the decoder of a client gets over a whole session.

use crate::client;
use crate::client::{ClientActionView, ClientView};
use crate::client_laws;
use crate::config::SessionConfig;
use crate::decode_queue;
use crate::decode_queue::{DecodeQueuePush, DecodeQueueView};
use crate::protocol;
use crate::protocol::{PacketView, VideoFragmentView};
use crate::reassembly;
use crate::video::VideoFrameView;
use vstd::prelude::*;

verus! {

/// What an application does with a client.
pub enum ClientStep {
    Prepare { decoder_needs_keyframe: bool, now: u64 },
    Receive { data: Seq<u8>, now: u64 },
    Configure(SessionConfig),
    Conclude { now: u64 },
    ChangeAudioDevice,
    TakeActions,
    PopFrame,
}

/// A frame that the decoder was given, and the run of pictures that it belongs to.
pub struct GivenFrame {
    pub frame: VideoFrameView,
    pub generation: u64,
}

/// A client, and what its decoder was given since the start.
pub struct SessionView {
    pub client: ClientView,
    pub given: Seq<GivenFrame>,
}

/// What a step makes of a client. Each method of a client does what its step says.
pub open spec fn stepped(c: ClientView, step: ClientStep) -> ClientView {
    match step {
        ClientStep::Prepare { decoder_needs_keyframe, now } => client::prepared(
            c,
            decoder_needs_keyframe,
            now,
        ),
        ClientStep::Receive { data, now } => client::datagram_received(c, data, now),
        ClientStep::Configure(config) => client::config_received(c, config),
        ClientStep::Conclude { now } => client::concluded(c, now),
        ClientStep::ChangeAudioDevice => match c.audio_config {
            Some(config) => client::acting(c, ClientActionView::StartAudio(config)),
            None => c,
        },
        ClientStep::TakeActions => ClientView { actions: Seq::empty(), ..c },
        ClientStep::PopFrame => if c.queue.frames.len() > 0 {
            ClientView {
                queue: DecodeQueueView { frames: c.queue.frames.skip(1), ..c.queue },
                ..c
            }
        } else {
            c
        },
    }
}

/// A session that began when the clock showed `start`, after these steps.
pub open spec fn session_after(start: u64, steps: Seq<ClientStep>) -> SessionView
    decreases steps.len(),
{
    if steps.len() == 0 {
        SessionView { client: client::new_client(start), given: Seq::empty() }
    } else {
        let before = session_after(start, steps.drop_last());
        let queue = before.client.queue;
        SessionView {
            client: stepped(before.client, steps.last()),
            given: if steps.last() is PopFrame && queue.frames.len() > 0 {
                before.given.push(
                    GivenFrame { frame: queue.frames[0].frame, generation: queue.generation },
                )
            } else {
                before.given
            },
        }
    }
}

/// The frame can be decoded after the last one of a run: it is a keyframe, or follows that
/// one in the same run.
pub open spec fn continues(frame: VideoFrameView, generation: u64, last: Option<GivenFrame>) -> bool {
    frame.is_keyframe || (last matches Some(last) && frame.frame_id
        == last.frame.frame_id.wrapping_add(1) && generation == last.generation)
}

/// The last frame that the decoder was given.
pub open spec fn last_given(given: Seq<GivenFrame>) -> Option<GivenFrame> {
    if given.len() > 0 {
        Some(given.last())
    } else {
        None
    }
}

/// Each frame can be decoded after the one before it.
pub open spec fn given_in_order(given: Seq<GivenFrame>) -> bool {
    forall|i: int|
        0 <= i < given.len() ==> continues(
            (#[trigger] given[i]).frame,
            given[i].generation,
            last_given(given.take(i)),
        )
}

/// Whatever the decoder is given next can be decoded after the last frame that it was given:
/// the first frame in the queue or, where it is empty, the frame that is needed next.
pub open spec fn in_step(c: ClientView, last: Option<GivenFrame>) -> bool {
    if c.queue.frames.len() > 0 {
        continues(c.queue.frames[0].frame, c.queue.generation, last)
    } else {
        match c.next_frame_id {
            Some(next) => {
                ||| c.completed_frames.contains_key(next)
                    && c.completed_frames[next].frame.is_keyframe
                ||| last matches Some(last) && next == last.frame.frame_id.wrapping_add(1)
                    && c.queue.generation == last.generation
            },
            None => true,
        }
    }
}

proof fn lemma_handed_over(c: ClientView, last: Option<GivenFrame>, now: u64)
    requires
        client_laws::chain_valid(c),
        in_step(c, last),
    ensures
        in_step(client::handed_over(c, now), last),
    decreases c.completed_frames.len(),
{
    if c.next_frame_id is Some {
        let expected = c.next_frame_id->0;
        if c.completed_frames.contains_key(expected) {
            let frame = c.completed_frames[expected];
            let (queue, outcome) = decode_queue::offered(c.queue, frame, now);
            if outcome == DecodeQueuePush::Queued {
                let e = ClientView {
                    queue,
                    completed_frames: c.completed_frames.remove(expected),
                    next_frame_id: Some(expected.wrapping_add(1)),
                    ..c
                };
                client_laws::lemma_chain_grows(c, now);
                lemma_handed_over(e, last, now);
            }
        }
    }
}

proof fn lemma_ordered(c: ClientView, frame: VideoFrameView, last: Option<GivenFrame>, now: u64)
    requires
        client_laws::client_valid(c),
        in_step(c, last),
        c.waiting_for_keyframe ==> frame.is_keyframe,
    ensures
        in_step(client::ordered(c, frame, now), last),
{
    let d = client::anchored(c, frame);
    let next = d.next_frame_id->0;
    if frame.frame_id >= next {
        let e = client_laws::taken_in(c, frame, now);
        client_laws::lemma_taken_in(c, frame, now);
        assert(in_step(e, last));
        let f = client::gap_noticed(e);
        assert(in_step(f, last));
        lemma_handed_over(f, last, now);
    }
}

proof fn lemma_fragment(
    c: ClientView,
    fragment: VideoFragmentView,
    size: nat,
    last: Option<GivenFrame>,
    now: u64,
)
    requires
        client_laws::client_valid(c),
        in_step(c, last),
    ensures
        in_step(client::fragment_received(c, fragment, size, now), last),
{
    if size <= c.negotiated_datagram_size {
        let d = client_laws::reassembling(c, fragment, now);
        client_laws::lemma_reassembling(c, fragment, now);
        if let Ok(Some(frame)) = reassembly::pushed(c.reassembler, fragment, now).1 {
            let e = client_laws::measured(d, frame, now);
            client_laws::lemma_measured(d, frame, now);
            if !(e.waiting_for_keyframe && !frame.is_keyframe) {
                lemma_ordered(e, frame, last, now);
            }
        }
    }
}

proof fn lemma_stepped(c: ClientView, step: ClientStep, last: Option<GivenFrame>)
    requires
        client_laws::client_valid(c),
        in_step(c, last),
        !(step is PopFrame),
    ensures
        client_laws::client_valid(stepped(c, step)),
        in_step(stepped(c, step), last),
{
    match step {
        ClientStep::Prepare { decoder_needs_keyframe, now } => {
            client_laws::preparing_keeps_a_client_valid(c, decoder_needs_keyframe, now);
        },
        ClientStep::Receive { data, now } => {
            client_laws::receiving_keeps_a_client_valid(c, data, now);
            let d = ClientView {
                metrics: client::ClientMetrics {
                    received_bytes: c.metrics.received_bytes.wrapping_add(data.len() as u64),
                    ..c.metrics
                },
                ..c
            };
            if let Ok(packet) = protocol::parsed_packet(data) {
                let e = ClientView { last_server_response: now, ..d };
                if let PacketView::Video(fragment) = packet {
                    if e.accepted {
                        assert(client_laws::client_valid(e));
                        lemma_fragment(e, fragment, data.len(), last, now);
                    }
                }
            }
        },
        ClientStep::Configure(config) => {
            client_laws::configuring_keeps_a_client_valid(c, config);
        },
        ClientStep::Conclude { now } => {
            client_laws::concluding_keeps_a_client_valid(c, now);
        },
        ClientStep::ChangeAudioDevice => {},
        ClientStep::TakeActions => {},
        ClientStep::PopFrame => {},
    }
}

proof fn lemma_session(start: u64, steps: Seq<ClientStep>)
    ensures
        ({
            let session = session_after(start, steps);
            &&& client_laws::client_valid(session.client)
            &&& in_step(session.client, last_given(session.given))
            &&& given_in_order(session.given)
        }),
    decreases steps.len(),
{
    if steps.len() == 0 {
        client_laws::new_clients_are_valid(start);
    } else {
        let before = session_after(start, steps.drop_last());
        let session = session_after(start, steps);
        lemma_session(start, steps.drop_last());
        let c = before.client;
        if steps.last() is PopFrame {
            if c.queue.frames.len() > 0 {
                client_laws::decoding_keeps_a_client_valid(c);
                assert forall|i: int| 0 <= i < session.given.len() implies continues(
                    (#[trigger] session.given[i]).frame,
                    session.given[i].generation,
                    last_given(session.given.take(i)),
                ) by {
                    if i < before.given.len() {
                        assert(session.given[i] == before.given[i]);
                        assert(session.given.take(i) =~= before.given.take(i));
                    } else {
                        assert(session.given.take(i) =~= before.given);
                    }
                }
                if c.queue.frames.len() > 1 {
                    assert(session.client.queue.frames[0] == c.queue.frames[1]);
                } else {
                    assert(c.queue.frames.last() == c.queue.frames[0]);
                }
            }
        } else {
            lemma_stepped(c, steps.last(), last_given(before.given));
        }
    }
}

/// Whatever an application does with a client and whatever arrives, over a whole session:
/// each frame that the decoder is given is a keyframe, or follows the frame that it was
/// given before, with no break between the two.
///
/// So the first frame is a keyframe, and so is the first one after frames were lost or
/// dropped, after the decoder had to start anew, and after the host was silent.
pub proof fn decoders_get_frames_in_order(start: u64, steps: Seq<ClientStep>)
    ensures
        given_in_order(session_after(start, steps).given),
{
    lemma_session(start, steps);
}

/// A client stays valid over a whole session.
pub proof fn sessions_stay_valid(start: u64, steps: Seq<ClientStep>)
    ensures
        client_laws::client_valid(session_after(start, steps).client),
{
    lemma_session(start, steps);
}

} // verus!
