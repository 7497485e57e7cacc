//! What the window shows, and what the user's choices mean.

use crate::cli::{ConnectCmd, RecordCmd};
use crate::config;
use crate::config::{
    AudioConfig, Channels, Config, FrameRate, SampleFormat, SessionConfig,
    StreamSettings, VideoCodec,
};
use crate::panel;
use crate::panel::{Mode, Panel, PanelEvent, PanelSettings, PanelView};
use crate::peer::PeerAddr;
use crate::resolution;
use crate::resolution::VideoResolution;
use crate::text;
use vstd::prelude::*;

verus! {

/// The window opens ready to connect, with the settings that suit most.
pub proof fn windows_open_ready(opened: Panel)
    requires
        call_ensures(Panel::new, (), opened),
    ensures
        opened@.status == "Ready"@,
        opened@.pending_peer is None,
        !opened@.active,
        !opened@.fullscreen,
        opened@.settings.mode == Mode::Connect,
        opened@.settings.port == 3013,
        opened@.settings.frames_per_second == 60,
        opened@.settings.bitrate_mbps == 6,
        opened@.settings.resolution == VideoResolution::Native,
        !opened@.settings.jumbo_datagrams,
{
}

/// The user gets what was chosen, within what can be used: any port but zero, 15 to 120
/// pictures a second, and 1 to 20 megabits a second.
pub proof fn choices_are_kept(settings: PanelSettings)
    ensures
        ({
            let used = panel::usable(settings);
            &&& used.mode == settings.mode
            &&& used.resolution == settings.resolution
            &&& used.jumbo_datagrams == settings.jumbo_datagrams
            &&& settings.port > 0 ==> used.port == settings.port
            &&& settings.port == 0 ==> used.port == 1
            &&& 15 <= used.frames_per_second <= 120
            &&& 15 <= settings.frames_per_second <= 120 ==> used.frames_per_second
                == settings.frames_per_second
            &&& settings.frames_per_second < 15 ==> used.frames_per_second == 15
            &&& settings.frames_per_second > 120 ==> used.frames_per_second == 120
            &&& 1 <= used.bitrate_mbps <= 20
            &&& 1 <= settings.bitrate_mbps <= 20 ==> used.bitrate_mbps == settings.bitrate_mbps
            &&& settings.bitrate_mbps < 1 ==> used.bitrate_mbps == 1
            &&& settings.bitrate_mbps > 20 ==> used.bitrate_mbps == 20
        }),
        forall|shown: &mut Panel| #[trigger]
            call_ensures(Panel::set, (shown, settings), ()) ==> (*final(shown))@ == (PanelView {
                settings: panel::usable(settings),
                ..(*shown)@
            }),
{
}

/// A megabit has a million bits.
pub proof fn megabits_have_a_million_bits(shown: Panel, bits: u32)
    requires
        call_ensures(Panel::bits_per_second, (&shown,), bits),
        shown@.settings.bitrate_mbps <= 4294,
    ensures
        bits == shown@.settings.bitrate_mbps * 1_000_000,
{
}

/// The user is asked about a peer that wants to connect, and not any more once somebody is
/// connected or gone.
pub proof fn the_user_is_asked_about_peers(p: PanelView, peer: PeerAddr, address: String)
    ensures
        panel::shown(p, PanelEvent::PendingConnection(peer, address)).pending_peer == Some(peer),
        panel::shown(p, PanelEvent::PendingConnection(peer, address)).status == address@
            + " wants to connect"@,
        panel::shown(p, PanelEvent::Connected(address)).pending_peer is None,
        panel::shown(p, PanelEvent::Connected(address)).status == "Connected to "@ + address@,
        panel::shown(p, PanelEvent::Disconnected(address)).pending_peer is None,
        panel::shown(p, PanelEvent::Disconnected(address)).status == "Disconnected: "@ + address@,
{
}

/// The user learns what happens, in words.
pub proof fn the_user_is_told(p: PanelView, words: String)
    ensures
        panel::shown(p, PanelEvent::Listening(words)) == (PanelView {
            status: "Listening on "@ + words@,
            ..p
        }),
        panel::shown(p, PanelEvent::AwaitingApproval) == (PanelView {
            status: "Waiting for the host to accept\u{2026}"@,
            ..p
        }),
        panel::shown(p, PanelEvent::ConnectionRejected(words)) == (PanelView {
            status: "Connection rejected: "@ + words@,
            ..p
        }),
        panel::shown(p, PanelEvent::Error(words)) == (PanelView {
            status: "Error: "@ + words@,
            ..p
        }),
        panel::shown(p, PanelEvent::VideoBackend(words)) == (PanelView {
            video_backend: words@,
            ..p
        }),
        panel::shown(p, PanelEvent::AudioBackend(words)) == (PanelView {
            audio_backend: words@,
            ..p
        }),
        p.settings.mode == Mode::Host && p.pending_peer is None ==> panel::shown(
            p,
            PanelEvent::CaptureReady,
        ).status == p.status + " \u{b7} capture ready"@,
        p.settings.mode == Mode::Connect || p.pending_peer is Some ==> panel::shown(
            p,
            PanelEvent::CaptureReady,
        ) == p,
{
}

/// The numbers that a session reports are shown as they are.
pub proof fn numbers_are_shown(p: PanelView, width: u32, height: u32, frames: u64)
    requires
        width > 0,
        height > 0,
    ensures
        panel::shown(p, PanelEvent::FramesDropped(frames)) == (PanelView {
            dropped_frames: frames,
            ..p
        }),
        panel::shown(p, PanelEvent::VideoConfigured(width, height)) == (PanelView {
            stream_width: width,
            stream_height: height,
            ..p
        }),
        panel::resolution_text(panel::shown(p, PanelEvent::VideoConfigured(width, height)))
            == text::decimal_text(width as nat) + "\u{d7}"@ + text::decimal_text(height as nat),
{
}

/// While the size of the pictures is not known, the chosen resolution is shown.
pub proof fn the_resolution_is_shown(p: PanelView)
    requires
        p.stream_width == 0,
    ensures
        panel::resolution_text(p) == match p.settings.resolution {
            VideoResolution::Native => "Native"@,
            VideoResolution::P720 => "720p"@,
            VideoResolution::P1080 => "1080p"@,
        },
{
}

/// The sign for a digit.
pub open spec fn sign_for(digit: u8) -> char {
    match digit {
        0 => '0',
        1 => '1',
        2 => '2',
        3 => '3',
        4 => '4',
        5 => '5',
        6 => '6',
        7 => '7',
        8 => '8',
        _ => '9',
    }
}

/// A number is written with the signs for its digits, the last one at the end.
pub proof fn numbers_are_written_in_decimal(value: nat)
    ensures
        text::decimal_text(value) == if value < 10 {
            seq![sign_for(value as u8)]
        } else {
            text::decimal_text(value / 10).push(sign_for((value % 10) as u8))
        },
{
    reveal_strlit("0");
    reveal_strlit("1");
    reveal_strlit("2");
    reveal_strlit("3");
    reveal_strlit("4");
    reveal_strlit("5");
    reveal_strlit("6");
    reveal_strlit("7");
    reveal_strlit("8");
    reveal_strlit("9");
    assert(text::digit(value % 10) =~= seq![sign_for((value % 10) as u8)]);
    if value < 10 {
        assert(value % 10 == value);
    } else {
        assert(text::decimal_text(value) =~= text::decimal_text(value / 10).push(
            sign_for((value % 10) as u8),
        ));
    }
}

/// Stopping a session leaves the window as it was before, with the user's choices.
pub proof fn stopping_clears_the_window(p: PanelView)
    ensures
        ({
            let after = panel::idle(p);
            &&& after.status == "Ready"@
            &&& after.pending_peer is None
            &&& !after.active
            &&& after.dropped_frames == 0
            &&& after.stream_width == 0 && after.stream_height == 0
            &&& after.video_backend == "initializing"@
            &&& after.audio_backend == "System default output"@
            &&& after.settings == p.settings
            &&& after.fullscreen == p.fullscreen
        }),
        forall|shown: &mut Panel| #[trigger]
            call_ensures(Panel::stop, (shown,), ()) ==> (*final(shown))@ == panel::idle((*shown)@),
{
}

/// A session that could be started is running; one that could not is not, and the user learns
/// why.
pub proof fn sessions_are_started(address: &str, outcome: Result<(), String>)
    ensures
        forall|shown: &mut Panel| #[trigger]
            call_ensures(Panel::started, (shown, address, outcome), ()) ==> {
                let hosting = (*shown)@.settings.mode == Mode::Host;
                let after = (*final(shown))@;
                &&& after.active == (outcome is Ok)
                &&& outcome is Ok && hosting ==> after.status == "Starting server on "@ + address@
                    + "\u{2026}"@
                &&& outcome is Ok && !hosting ==> after.status == "Requesting connection to "@
                    + address@ + "\u{2026}"@
                &&& outcome matches Err(error) ==> after.status == if hosting {
                    "Unable to start server: "@
                } else {
                    "Unable to connect: "@
                } + error@
                &&& after.pending_peer is None
                &&& after.settings == (*shown)@.settings
            },
{
}

/// Whoever asked is turned away once, and the question is closed.
pub proof fn peers_are_turned_away_once(address: &str, peer: Option<PeerAddr>)
    ensures
        forall|shown: &mut Panel| #[trigger]
            call_ensures(Panel::reject, (shown, address), peer) ==> {
                &&& peer == (*shown)@.pending_peer
                &&& (*final(shown))@.pending_peer is None
                &&& peer is Some ==> (*final(shown))@.status == "Rejected "@ + address@
                &&& peer is None ==> (*final(shown))@ == (*shown)@
            },
{
}

/// F11 changes between the window and the whole screen, and Escape leaves the whole screen.
pub proof fn keys_change_the_window(f11: bool, escape: bool)
    ensures
        forall|shown: &mut Panel| #[trigger]
            call_ensures(Panel::press, (shown, f11, escape), ()) ==> {
                let before = (*shown)@.fullscreen;
                let after = (*final(shown))@.fullscreen;
                &&& f11 ==> after == !before
                &&& !f11 && escape ==> !after
                &&& !f11 && !escape ==> after == before
            },
{
}

/// The button says what it does.
pub proof fn buttons_say_what_they_do(shown: Panel, label: &'static str)
    requires
        call_ensures(Panel::start_label, (&shown,), label),
    ensures
        shown@.settings.mode == Mode::Host ==> label@ == "Start server"@,
        shown@.settings.mode == Mode::Connect ==> label@ == "Connect"@,
{
}

/// The streams of a host are offered as they are: the sound that it has, and pictures of that
/// size, rate and bitrate in H.264, in datagrams of 1400 or 8192 bytes.
pub proof fn hosts_offer_their_streams(
    audio: Option<AudioConfig>,
    dimensions: (u32, u32),
    frames_per_second: u32,
    bitrate_bps: u32,
    jumbo: bool,
    offer: SessionConfig,
)
    requires
        call_ensures(
            config::host_session,
            (audio, dimensions, frames_per_second, bitrate_bps, jumbo),
            offer,
        ),
    ensures
        offer.audio == audio,
        offer.video is Some,
        ({
            let video = offer.video->0;
            &&& video.codec == VideoCodec::H264
            &&& (video.width, video.height) == dimensions
            &&& video.frame_rate == (FrameRate { numerator: frames_per_second, denominator: 1 })
            &&& video.bitrate_bps == bitrate_bps
            &&& video.datagram_size == if jumbo {
                8192u16
            } else {
                1400u16
            }
        }),
{
}

/// A config is played as it says.
pub proof fn configs_are_followed(stream: Config, settings: StreamSettings)
    requires
        call_ensures(Config::stream_settings, (&stream,), settings),
        config::named_format(stream.sample_format@) is Some,
    ensures
        settings.channels == stream.channels,
        settings.sample_rate == stream.sample_rate,
        settings.buffer_size == stream.buffer_size,
        Some(settings.sample_format) == config::named_format(stream.sample_format@),
{
}

/// The formats that a config can name: integers of 8 to 64 bits, and floating point numbers of
/// 32 and 64.
pub proof fn formats_have_names(name: Seq<char>)
    ensures
        name != "i8"@ && name != "i16"@ && name != "i32"@ && name != "i64"@ && name != "f32"@
            && name != "f64"@ ==> config::named_format(name) is None,
        config::named_format("i8"@) == Some(SampleFormat::I8),
        config::named_format("i16"@) == Some(SampleFormat::I16),
        config::named_format("i32"@) == Some(SampleFormat::I32),
        config::named_format("i64"@) == Some(SampleFormat::I64),
        config::named_format("f32"@) == Some(SampleFormat::F32),
        config::named_format("f64"@) == Some(SampleFormat::F64),
{
    reveal_strlit("i8");
    reveal_strlit("i16");
    reveal_strlit("i32");
    reveal_strlit("i64");
    reveal_strlit("f32");
    reveal_strlit("f64");
    let one = "i16"@;
    assert(one[1] == '1');
    assert("i32"@[1] == '3' && "i64"@[1] == '6' && "f32"@[0] == 'f' && "f64"@[0] == 'f');
    assert("f32"@[1] == '3' && "f64"@[1] == '6');
    assert("i32"@[0] == 'i' && "i64"@[0] == 'i' && one[0] == 'i');
    assert("i8"@.len() == 2);
}

/// One channel is mono and two are stereo.
pub proof fn channels_have_names(count: u16, channels: Channels)
    requires
        call_ensures(config::count_to_channels, (count,), channels),
        1 <= count <= 2,
    ensures
        channels is Mono == (count == 1),
        channels is Stereo == (count == 2),
{
}

/// A resolution is the screen's own, 1280 by 720 at most, or 1920 by 1080 at most.
pub proof fn resolutions_have_limits()
    ensures
        VideoResolution::Native.limits() is None,
        VideoResolution::P720.limits() == Some((1280u32, 720u32)),
        VideoResolution::P1080.limits() == Some((1920u32, 1080u32)),
{
}

/// The pictures that are sent have even dimensions, no larger than the screen's and smaller by
/// one at most where its own size is kept, and are never empty.
pub proof fn pictures_have_even_dimensions(
    chosen: VideoResolution,
    native: (u32, u32),
    fitted: (u32, u32),
    dimensions: Option<(u32, u32)>,
)
    requires
        call_ensures(resolution::stream_dimensions, (chosen, native, fitted), dimensions),
    ensures
        dimensions matches Some((width, height)) ==> {
            &&& width > 0 && height > 0
            &&& chosen != VideoResolution::Native ==> (width, height) == fitted
            &&& chosen == VideoResolution::Native ==> {
                &&& width % 2 == 0 && height % 2 == 0
                &&& native.0 - 1 <= width <= native.0
                &&& native.1 - 1 <= height <= native.1
            }
        },
        dimensions is None ==> {
            &&& chosen != VideoResolution::Native ==> fitted.0 == 0 || fitted.1 == 0
            &&& chosen == VideoResolution::Native ==> native.0 <= 1 || native.1 <= 1
        },
{
}

/// The tools use port 3013 unless told otherwise.
pub proof fn tools_use_one_port(recording: RecordCmd, connecting: ConnectCmd, ip: [u8; 4])
    requires
        call_ensures(RecordCmd::default, (), recording),
        call_ensures(ConnectCmd::to_host, (ip,), connecting),
    ensures
        recording.port == 3013,
        !recording.clipboard,
        connecting.dest_port == 3013,
        connecting.src_port == 3013,
        connecting.ip == ip,
{
}

} // verus!
