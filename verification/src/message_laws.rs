//! What people are told, and how small things are named and read.

use crate::audio;
use crate::audio::PlaybackBuffer;
use crate::bytes;
use crate::capture::CaptureStall;
use crate::client::ClientError;
use crate::clipboard::{
    Clipboard, ClipboardBackend, ClipboardError, ClipboardErrorView, ClipboardReassembler,
    ClipboardSender,
};
use crate::clock;
use crate::config::VideoCodec;
use crate::h264;
use crate::h264::H264Error;
use crate::i420::PictureError;
use crate::panel::Panel;
use crate::protocol;
use crate::protocol::{CursorPosition, PacketParseError, ServerStats, VideoFragment};
use crate::reassembly::{VideoReassembler, VideoReassemblyError};
use crate::resolution;
use crate::resolution::VideoResolution;
use crate::text;
use crate::video::VideoFragmentationError;
use std::collections::VecDeque;
use std::time::Duration;
use vstd::prelude::*;

verus! {

/// Datagrams that are refused are refused with a reason.
pub proof fn refused_packets_are_explained(error: PacketParseError, words: &str)
    requires
        call_ensures(PacketParseError::message, (&error,), words),
    ensures
        error is Invalid ==> words@ == "invalid packet"@,
        error is TooShort ==> words@ == "packet is too short"@,
        error is TooLarge ==> words@ == "packet exceeds protocol limits"@,
{
}

/// Frames that cannot be sent or put together are refused with a reason.
pub proof fn refused_frames_are_explained(
    cut: VideoFragmentationError,
    why: &str,
    put_together: VideoReassemblyError,
    reason: &str,
)
    requires
        call_ensures(VideoFragmentationError::message, (&cut,), why),
        call_ensures(VideoReassemblyError::message, (&put_together,), reason),
    ensures
        cut is EmptyFrame ==> why@ == "video frame is empty"@,
        cut is FrameTooLarge ==> why@ == "video frame exceeds the protocol limit"@,
        cut is InvalidDatagramSize ==> why@ == "invalid negotiated video datagram size"@,
        put_together is InvalidFragment ==> reason@ == "invalid video fragment"@,
        put_together is FrameMetadataChanged ==> reason@
            == "video frame metadata changed during reassembly"@,
        put_together is FrameTooLarge ==> reason@
            == "reassembled video frame exceeds the protocol limit"@,
{
}

/// Video that is not H.264 as it should be is refused with a reason.
pub proof fn refused_video_is_explained(error: H264Error, words: &str)
    requires
        call_ensures(H264Error::message, (&error,), words),
    ensures
        error is NotAnnexB ==> words@ == "H.264 frame is not Annex B"@,
        error is NoNals ==> words@ == "H.264 frame contains no NAL units"@,
        error is NalTooLong ==> words@ == "H.264 NAL unit exceeds AVCC limits"@,
        error is NothingDecodable ==> words@ == "H.264 frame contains no decodable NAL units"@,
        error is TruncatedLength ==> words@ == "VideoToolbox returned a truncated AVCC length"@,
        error is InvalidNal ==> words@ == "VideoToolbox returned an invalid AVCC NAL unit"@,
{
}

/// A capture that is stuck says where.
pub proof fn stuck_captures_are_explained(stall: CaptureStall, words: &str)
    requires
        call_ensures(CaptureStall::message, (&stall,), words),
    ensures
        stall is NoFirstFrame ==> words@
            == "DXGI produced no desktop frames for 2000 ms while a viewer was connected"@,
        stall is CaptureStopped ==> words@
            == "DXGI stopped producing an active desktop stream for 2000 ms"@,
        stall is EncoderStopped ==> words@
            == "NVENC completed no frames for 2000 ms while DXGI capture remained active"@,
{
}

/// A host that cannot be used is refused with a reason.
pub proof fn refused_hosts_are_explained(error: ClientError, words: String)
    requires
        call_ensures(ClientError::message, (&error,), words),
    ensures
        error is NoVideo ==> words@ == "Host did not offer a video stream"@,
        error matches ClientError::UnsupportedCodec(codec) ==> words@
            == "Unsupported video codec: "@ + match codec {
            VideoCodec::H264 => "H264"@,
            VideoCodec::H265 => "H265"@,
            VideoCodec::Av1 => "Av1"@,
        },
        error matches ClientError::UnsupportedDatagramSize(size) ==> words@
            == "Host selected unsupported datagram size "@ + text::decimal_text(size as nat),
{
}

/// A text that cannot be shared is refused with a reason.
pub proof fn refused_texts_are_explained(error: &ClipboardError, words: String)
    requires
        call_ensures(ClipboardError::message, (error,), words),
    ensures
        error@ matches ClipboardErrorView::TooManyChunks(count) ==> words@
            == "clipboard payload needs "@ + text::decimal_text(count as nat)
            + " chunks, max supported is 65535"@,
        error@ matches ClipboardErrorView::ChunkCountChanged(id) ==> words@
            == "clipboard transfer "@ + text::decimal_text(id as nat) + " changed chunk count"@,
        error@ matches ClipboardErrorView::NotUtf8(reason) ==> words@
            == "clipboard payload is not UTF-8: "@ + reason,
        error@ matches ClipboardErrorView::Backend(reason) ==> words@ == reason,
{
}

/// A picture that makes no sense is refused with a reason.
pub proof fn refused_pictures_are_explained(error: PictureError, words: String)
    requires
        call_ensures(PictureError::message, (&error,), words),
    ensures
        error is NegativeWidth ==> words@ == "negative capture width"@,
        error is NegativeHeight ==> words@ == "negative capture height"@,
        error is NegativeLuminanceStride ==> words@ == "negative luminance stride"@,
        error is NegativeChrominanceStride ==> words@ == "negative chrominance stride"@,
        error matches PictureError::OddDimensions { width, height } ==> words@
            == "capture dimensions must be positive and even, got "@ + (text::decimal_text(
            width as nat,
        ) + "x"@ + text::decimal_text(height as nat)),
        error matches PictureError::NoPixels { width, height } ==> words@
            == "capture dimensions must be positive, got "@ + (text::decimal_text(width as nat)
            + "x"@ + text::decimal_text(height as nat)),
        error is StrideTooSmall ==> words@ == "capture stride is smaller than its visible width"@,
        error is PlanesTooSmall ==> words@
            == "capture planes are smaller than their declared dimensions"@,
        error is TooLarge ==> words@ == "capture dimensions overflow the address space"@,
        error is BufferTooSmall ==> words@
            == "BGRA capture buffer is smaller than its declared dimensions"@,
        error is MaximumTooSmall ==> words@ == "maximum video dimensions must be at least 2x2"@,
{
}

/// Resolutions are named by their height.
pub proof fn resolutions_have_names(resolution: VideoResolution, words: &str)
    requires
        call_ensures(VideoResolution::label, (resolution,), words),
    ensures
        resolution is Native ==> words@ == "Native"@,
        resolution is P720 ==> words@ == "720p"@,
        resolution is P1080 ==> words@ == "1080p"@,
{
}

/// One channel is sent as it is, and more as two; two take twice the bits of one.
pub proof fn sound_is_sent_in_one_channel_or_two(channels: u16, sent: u16, bits: i32, label: &str)
    requires
        call_ensures(audio::encoded_channels, (channels,), sent),
        call_ensures(audio::opus_bitrate, (channels,), bits),
        call_ensures(audio::channel_label, (channels,), label),
    ensures
        channels == 1 ==> sent == 1,
        channels != 1 ==> sent == 2,
        bits == 64_000 * sent,
        sent == 1 ==> label@ == "mono"@,
        sent == 2 ==> label@ == "stereo"@,
{
}

/// Sound is played from two neighbouring moments: one channel everywhere, the mean of two where
/// there is one to play on, each channel on its own otherwise, and silence on those that are
/// left.
pub proof fn channels_are_played_where_they_belong<T: Copy, F: Fn(T, T) -> T>(
    samples: &VecDeque<T>,
    source_channels: usize,
    output_channels: usize,
    output_channel: usize,
    silence: T,
    mean: F,
    pair: (T, T),
)
    requires
        1 <= source_channels,
        2 * source_channels <= samples@.len(),
        call_ensures(
            audio::interpolated_source_pair::<T, F>,
            (samples, source_channels, output_channels, output_channel, silence, mean),
            pair,
        ),
    ensures
        source_channels == 1 ==> pair.0 == samples@[0] && pair.1 == samples@[1],
        source_channels > 1 && output_channels == 1 ==> call_ensures(
            mean,
            (samples@[0], samples@[1]),
            pair.0,
        ) && call_ensures(
            mean,
            (samples@[source_channels as int], samples@[source_channels + 1]),
            pair.1,
        ),
        source_channels > 1 && output_channels != 1 && output_channel < 2 ==> pair.0
            == samples@[output_channel as int] && pair.1 == samples@[source_channels
            + output_channel],
        source_channels > 1 && output_channels != 1 && output_channel >= 2 ==> pair.0 == silence
            && pair.1 == silence,
{
}

/// A buffer says what it holds and how much.
pub proof fn buffers_are_read_out<T: Copy>(
    buffer: &PlaybackBuffer<T>,
    len: usize,
    samples: &VecDeque<T>,
)
    requires
        call_ensures(PlaybackBuffer::<T>::len, (buffer,), len),
        call_ensures(PlaybackBuffer::<T>::samples, (buffer,), samples),
    ensures
        len == buffer@.samples.len(),
        samples@ == buffer@.samples,
{
}

/// Texts are numbered from one, kept for ten seconds while they come in, and nothing is shared
/// at first.
pub proof fn sharing_starts_anew<B: ClipboardBackend>(
    first: ClipboardSender,
    backend: B,
    sender: ClipboardSender,
    clipboard: Clipboard<B>,
    max_age: Duration,
    reassembler: ClipboardReassembler,
)
    requires
        call_ensures(ClipboardSender::new, (), first),
        call_ensures(Clipboard::<B>::new, (backend, sender), clipboard),
        call_ensures(ClipboardReassembler::new, (max_age,), reassembler),
    ensures
        first.next_transfer_id == 1,
        clipboard.backend == backend,
        clipboard.sender == sender,
        clipboard.last_text is None,
        clipboard.reassembler@.max_age == 10_000_000_000,
        forall|id: u64| !clipboard.reassembler@.transfers.contains_key(id),
        reassembler@.max_age == clock::duration_nanos(max_age),
        forall|id: u64| !reassembler@.transfers.contains_key(id),
{
}

/// A new reassembler has no frame and knows of none.
pub proof fn reassembling_starts_anew(
    max_pending_frames: usize,
    max_age: Duration,
    reassembler: VideoReassembler,
    nanos: u128,
    other: VideoReassembler,
)
    requires
        call_ensures(VideoReassembler::new, (max_pending_frames, max_age), reassembler),
        call_ensures(VideoReassembler::with_age, (max_pending_frames, nanos), other),
    ensures
        forall|id: u64| !reassembler@.frames.contains_key(id),
        reassembler@.completed.len() == 0,
        reassembler@.max_pending_frames == max_pending_frames,
        reassembler@.max_age == clock::duration_nanos(max_age),
        forall|id: u64| !other@.frames.contains_key(id),
        other@.completed.len() == 0,
        other@.max_pending_frames == max_pending_frames,
        other@.max_age == nanos,
{
}

/// A window says what it shows.
pub proof fn windows_are_read_out(
    panel: &Panel,
    status: &str,
    active: bool,
    fullscreen: bool,
    video: &str,
    sound: &str,
)
    requires
        call_ensures(Panel::status, (panel,), status),
        call_ensures(Panel::is_active, (panel,), active),
        call_ensures(Panel::is_fullscreen, (panel,), fullscreen),
        call_ensures(Panel::video_backend, (panel,), video),
        call_ensures(Panel::audio_backend, (panel,), sound),
    ensures
        status@ == panel@.status,
        active == panel@.active,
        fullscreen == panel@.fullscreen,
        video@ == panel@.video_backend,
        sound@ == panel@.audio_backend,
{
}

/// An address that is none is shown to the user, and nothing else changes.
pub proof fn wrong_addresses_are_shown(address: &str)
    ensures
        forall|panel: &mut Panel| #[trigger]
            call_ensures(Panel::refuse_address, (panel, address), ()) ==> {
                &&& (*final(panel))@.status == "Invalid IP address: "@ + address@
                &&& (*final(panel))@.active == (*panel)@.active
                &&& (*final(panel))@.settings == (*panel)@.settings
                &&& (*final(panel))@.pending_peer == (*panel)@.pending_peer
                &&& (*final(panel))@.fullscreen == (*panel)@.fullscreen
            },
{
}

/// A fragment gives out the bytes that it brought.
pub proof fn fragments_give_out_their_bytes(fragment: VideoFragment<'_>, seen: &[u8], taken: Vec<u8>)
    requires
        call_ensures(VideoFragment::payload_bytes, (&fragment,), seen),
        call_ensures(VideoFragment::into_payload, (fragment,), taken),
    ensures
        seen@ == fragment@.payload,
        taken@ == seen@,
{
}

/// Texts are the same if they have the same letters, and numbers are rounded down to the next
/// even one.
pub proof fn small_questions_are_answered(a: &str, b: &str, same: bool, value: u32, even: u32)
    requires
        call_ensures(text::same_text, (a, b), same),
        call_ensures(resolution::round_down_to_even, (value,), even),
    ensures
        same <==> a@ == b@,
        even as int % 2 == 0,
        value - 1 <= even <= value,
{
}

/// A number of eight bytes is read with its most significant byte first, and other lengths are
/// refused.
pub proof fn numbers_need_eight_bytes(payload: &[u8], outcome: Result<u64, PacketParseError>)
    requires
        call_ensures(protocol::parse_u64, (payload,), outcome),
    ensures
        payload@.len() != 8 ==> outcome == Err::<u64, _>(PacketParseError::Invalid),
        payload@.len() == 8 ==> (outcome matches Ok(value) && value == bytes::be_value(payload@)),
{
    if payload@.len() == 8 {
        assert(payload@.subrange(0, 8) =~= payload@);
        bytes::lemma_be_value_bound(payload@);
        bytes::lemma_be_ranges();
    }
}

/// A cursor needs nine bytes, the last of which says whether it can be seen.
pub proof fn cursors_need_nine_bytes(
    payload: &[u8],
    outcome: Result<CursorPosition, PacketParseError>,
)
    requires
        call_ensures(protocol::parse_cursor_position, (payload,), outcome),
    ensures
        outcome is Ok == (payload@.len() == 9 && payload@[8] <= 1),
        outcome matches Ok(cursor) ==> cursor.visible == (payload@[8] == 1),
        outcome matches Err(error) ==> error is Invalid,
{
}

/// Measurements have one of two lengths.
pub proof fn measurements_have_two_lengths(
    payload: &[u8],
    outcome: Result<ServerStats, PacketParseError>,
)
    requires
        call_ensures(protocol::parse_server_stats, (payload,), outcome),
        payload@.len() != 92,
        payload@.len() != 132,
    ensures
        outcome == Err::<ServerStats, _>(PacketParseError::Invalid),
{
}

/// Sound and pictures need their headers and something after them.
pub proof fn media_need_something_after_their_headers(payload: Seq<u8>)
    ensures
        payload.len() <= 12 ==> protocol::parsed_audio(payload) == Err::<
            protocol::AudioFrameView,
            _,
        >(PacketParseError::TooShort),
        payload.len() > 12 + 1383 ==> protocol::parsed_audio(payload) == Err::<
            protocol::AudioFrameView,
            _,
        >(PacketParseError::TooLarge),
        12 < payload.len() <= 12 + 1383 ==> (protocol::parsed_audio(payload) matches Ok(frame)
            && frame.payload == payload.subrange(12, payload.len() as int)),
        payload.len() <= 21 ==> protocol::parsed_video(payload) == Err::<
            protocol::VideoFragmentView,
            _,
        >(PacketParseError::TooShort),
        payload.len() > 21 && payload[20] >= 4 ==> protocol::parsed_video(payload) == Err::<
            protocol::VideoFragmentView,
            _,
        >(PacketParseError::Invalid),
{
    if 12 < payload.len() {
        assert(payload.skip(12) =~= payload.subrange(12, payload.len() as int));
    }
}

/// The length of a unit takes four bytes, and all of the unit has to follow.
pub proof fn units_follow_their_lengths(
    data: &[u8],
    position: usize,
    outcome: Result<usize, H264Error>,
)
    requires
        call_ensures(h264::read_avcc_length, (data, position), outcome),
    ensures
        position + 4 > data@.len() ==> outcome == Err::<usize, _>(H264Error::TruncatedLength),
        position + 4 <= data@.len() ==> {
            let length = bytes::be_value(data@.subrange(position as int, position + 4));
            &&& length == 0 || position + 4 + length > data@.len() ==> outcome == Err::<usize, _>(
                H264Error::InvalidNal,
            )
            &&& length > 0 && position + 4 + length <= data@.len() ==> (outcome matches Ok(found)
                && found == length)
        },
{
}

/// Both ends give each other the same times: for waiting, for trying again and for giving up, in
/// nanoseconds where nothing else is said.
pub proof fn times_are_agreed_on()
    ensures
        crate::audio::OPUS_FRAME_MS == 10,
        crate::audio::RECORD_FRAME_MS == 20,
        crate::audio::PLAYBACK_BUFFER_MS == 100,
        crate::audio::PLAYBACK_START_MS == 30,
        crate::audio::MAX_BUFFER_MS == 250,
        crate::capture::CAPTURE_STALL_TIMEOUT == 2_000_000_000,
        crate::capture::ACTIVE_CAPTURE_STALL_TIMEOUT == 2_000_000_000,
        crate::capture::ACTIVE_ENCODE_STALL_TIMEOUT == 2_000_000_000,
        crate::capture::CAPTURE_ACTIVITY_WINDOW == 1_000_000_000,
        crate::capture::ACCESS_LOST_RETRY_DELAY_MS == 25,
        crate::capture::ACCESS_LOST_MAX_RETRY_DELAY_MS == 200,
        crate::capture::CURSOR_REFRESH_INTERVAL == 100_000_000,
        crate::capture::PACING_TOLERANCE == 1_000_000,
        crate::client::CONNECTION_TIMEOUT == 3_000_000_000,
        crate::client::KEYFRAME_RETRY_INTERVAL == 500_000_000,
        crate::client::VIDEO_REASSEMBLY_AGE == 50_000_000,
        crate::client::HELLO_INTERVAL == 400_000_000,
        crate::client::HEARTBEAT_INTERVAL == 1_000_000_000,
        crate::client::STATS_INTERVAL == 1_000_000_000,
        crate::clipboard::CLIPBOARD_POLL_INTERVAL_MS == 250,
        crate::clipboard::CLIPBOARD_TRANSFER_TTL == 10_000_000_000,
        crate::decode_queue::VIDEO_STALE_AGE == 25_000_000,
        crate::hardware::GPU_COMPLETION_TIMEOUT == 1_000_000_000,
        crate::host::CONNECTION_TIMEOUT == 3_000_000_000,
        crate::host::RECONNECT_GRACE == 30_000_000_000,
        crate::listen::HELLO_INTERVAL == 400_000_000,
        crate::listen::PING_INTERVAL == 1_000_000_000,
        crate::listen::RETRY_DELAY == 5_000_000_000,
        crate::pacer::VIDEO_PACING_SLEEP_GUARD == 500_000,
        crate::pacer::VIDEO_PACING_SPIN == 25_000,
        crate::record::DISCONNECT_TIMEOUT == 3_000_000_000,
        crate::sender::VIDEO_SEND_STALE_AGE == 25_000_000,
        crate::sender::STATS_INTERVAL == 1_000_000_000,
{
}

/// Both ends have the same limits: for datagrams and what is in them, and for what is kept.
pub proof fn sizes_are_agreed_on()
    ensures
        crate::audio::MAX_RETRIES == 3,
        crate::audio::OUTPUT_BYTES == 2048,
        crate::capture::CAPTURE_ACTIVITY_THRESHOLD == 3,
        crate::cli::DEFAULT_UDP_PORT == 3013,
        crate::client::VIDEO_REORDER_WINDOW == 2,
        crate::client::MAX_PENDING_FRAMES == 8,
        crate::client::PINGS_REMEMBERED == 4,
        crate::client::STARTS_REMEMBERED == 16,
        crate::decode_queue::VIDEO_DECODE_QUEUE_CAPACITY == 2,
        crate::h264::NAL_LENGTH_BYTES == 4,
        crate::hardware::SLOT_COUNT == 4,
        crate::hardware::GPU_SPIN_LIMIT == 128,
        crate::pacer::VIDEO_PACING_BATCH_DATAGRAMS == 16,
        crate::pacer::VIDEO_PACING_RATE_MULTIPLIER == 4,
        crate::panel::DEFAULT_PORT == 3013,
        crate::protocol::HEADER_LEN == 5,
        crate::protocol::AUDIO_HEADER_LEN == 12,
        crate::protocol::VIDEO_HEADER_LEN == 21,
        crate::protocol::CLIPBOARD_HEADER_LEN == 12,
        crate::protocol::LEGACY_SERVER_STATS_LEN == 92,
        crate::protocol::SERVER_STATS_LEN == 132,
        crate::protocol::VIDEO_RECOVERY_HEADER_LEN == 4,
        crate::protocol::STANDARD_DATAGRAM_SIZE == 1400,
        crate::protocol::JUMBO_DATAGRAM_SIZE == 8192,
        crate::protocol::MAX_DATAGRAM_SIZE == 8192,
        crate::protocol::MAX_CLIPBOARD_CHUNK_PAYLOAD == 1024,
        crate::protocol::MAX_AUDIO_FRAME_PAYLOAD == 1383,
        crate::protocol::MAX_VIDEO_FRAGMENT_PAYLOAD == 8166,
        crate::protocol::MAX_VIDEO_FRAME_SIZE == 8_388_608,
        crate::protocol::MAX_VIDEO_FRAGMENTS == 6124,
        crate::reassembly::COMPLETED_FRAMES_REMEMBERED == 64,
        crate::protocol::STANDARD_VIDEO_FRAGMENT_PAYLOAD == 1374,
{
}

/// Datagrams and units of video are told apart by the same numbers at both ends.
pub proof fn kinds_are_agreed_on()
    ensures
        crate::h264::NAL_IDR == 5,
        crate::h264::NAL_SPS == 7,
        crate::h264::NAL_PPS == 8,
        crate::h264::NAL_AUD == 9,
        crate::protocol::HELLO == 1,
        crate::protocol::CONFIG == 2,
        crate::protocol::PING == 3,
        crate::protocol::PONG == 4,
        crate::protocol::AUDIO == 5,
        crate::protocol::CLIPBOARD == 6,
        crate::protocol::VIDEO == 7,
        crate::protocol::VIDEO_KEYFRAME_REQUEST == 8,
        crate::protocol::CONNECTION_REJECTED == 9,
        crate::protocol::CURSOR_POSITION == 10,
        crate::protocol::SERVER_STATS == 11,
{
}

} // verus!
