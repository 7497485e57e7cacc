//! What the window of the desktop application shows, and how it changes.

use crate::peer::PeerAddr;
use crate::resolution::VideoResolution;
use crate::text;
use crate::text::decimal;
use vstd::prelude::*;

verus! {

#[derive(Clone, Copy, Debug, PartialEq, Eq, Structural)]
pub enum Mode {
    Host,
    Connect,
}

pub const DEFAULT_PORT: u16 = 3013;

/// What the user chose.
#[derive(Clone, Copy, Debug, PartialEq, Eq, Structural)]
pub struct PanelSettings {
    pub mode: Mode,
    pub port: u16,
    pub frames_per_second: u32,
    pub bitrate_mbps: u32,
    pub resolution: VideoResolution,
    pub jumbo_datagrams: bool,
}

/// What the window shows.
#[verifier::ext_equal]
pub struct PanelView {
    pub settings: PanelSettings,
    pub status: Seq<char>,
    /// Somebody who wants to see the screen, while the user is asked.
    pub pending_peer: Option<PeerAddr>,
    /// A session is running.
    pub active: bool,
    pub dropped_frames: u64,
    pub stream_width: u32,
    pub stream_height: u32,
    pub video_backend: Seq<char>,
    pub audio_backend: Seq<char>,
    pub fullscreen: bool,
}

pub struct Panel {
    settings: PanelSettings,
    status: String,
    pending_peer: Option<PeerAddr>,
    active: bool,
    dropped_frames: u64,
    stream_width: u32,
    stream_height: u32,
    video_backend: String,
    audio_backend: String,
    fullscreen: bool,
}

impl View for Panel {
    type V = PanelView;

    closed spec fn view(&self) -> PanelView {
        PanelView {
            settings: self.settings,
            status: self.status@,
            pending_peer: self.pending_peer,
            active: self.active,
            dropped_frames: self.dropped_frames,
            stream_width: self.stream_width,
            stream_height: self.stream_height,
            video_backend: self.video_backend@,
            audio_backend: self.audio_backend@,
            fullscreen: self.fullscreen,
        }
    }
}

/// What happens in a session. Addresses come as text where they are shown.
#[derive(Debug, PartialEq, Eq)]
pub enum PanelEvent {
    Listening(String),
    AwaitingApproval,
    PendingConnection(PeerAddr, String),
    Connected(String),
    ConnectionRejected(String),
    Disconnected(String),
    CaptureReady,
    /// The pictures that are sent or shown have this size.
    VideoConfigured(u32, u32),
    VideoBackend(String),
    AudioBackend(String),
    /// So many frames were dropped.
    FramesDropped(u64),
    Error(String),
}

pub open spec fn default_settings() -> PanelSettings {
    PanelSettings {
        mode: Mode::Connect,
        port: DEFAULT_PORT,
        frames_per_second: 60,
        bitrate_mbps: 6,
        resolution: VideoResolution::Native,
        jumbo_datagrams: false,
    }
}

/// The window when no session is running.
pub open spec fn idle(p: PanelView) -> PanelView {
    PanelView {
        status: "Ready"@,
        pending_peer: None,
        active: false,
        dropped_frames: 0,
        stream_width: 0,
        stream_height: 0,
        video_backend: "initializing"@,
        audio_backend: "System default output"@,
        ..p
    }
}

/// The window after something happened.
pub open spec fn shown(p: PanelView, event: PanelEvent) -> PanelView {
    match event {
        PanelEvent::Listening(address) => PanelView { status: "Listening on "@ + address@, ..p },
        PanelEvent::AwaitingApproval => PanelView {
            status: "Waiting for the host to accept\u{2026}"@,
            ..p
        },
        PanelEvent::PendingConnection(peer, address) => PanelView {
            status: address@ + " wants to connect"@,
            pending_peer: Some(peer),
            ..p
        },
        PanelEvent::Connected(address) => PanelView {
            status: "Connected to "@ + address@,
            pending_peer: None,
            ..p
        },
        PanelEvent::ConnectionRejected(reason) => PanelView {
            status: "Connection rejected: "@ + reason@,
            ..p
        },
        PanelEvent::Disconnected(reason) => PanelView {
            status: "Disconnected: "@ + reason@,
            pending_peer: None,
            ..p
        },
        PanelEvent::CaptureReady => if p.settings.mode is Host && p.pending_peer is None {
            PanelView { status: p.status + " \u{b7} capture ready"@, ..p }
        } else {
            p
        },
        PanelEvent::VideoConfigured(width, height) => PanelView {
            stream_width: width,
            stream_height: height,
            ..p
        },
        PanelEvent::VideoBackend(backend) => PanelView { video_backend: backend@, ..p },
        PanelEvent::AudioBackend(backend) => PanelView { audio_backend: backend@, ..p },
        PanelEvent::FramesDropped(frames) => PanelView { dropped_frames: frames, ..p },
        PanelEvent::Error(error) => PanelView { status: "Error: "@ + error@, ..p },
    }
}

/// The nearest number in a range.
pub open spec fn clamped(value: u32, least: u32, most: u32) -> u32 {
    if value < least {
        least
    } else if value > most {
        most
    } else {
        value
    }
}

/// Settings that can be used.
pub open spec fn usable(settings: PanelSettings) -> PanelSettings {
    PanelSettings {
        port: if settings.port == 0 {
            1
        } else {
            settings.port
        },
        frames_per_second: clamped(settings.frames_per_second, 15, 120),
        bitrate_mbps: clamped(settings.bitrate_mbps, 1, 20),
        ..settings
    }
}

/// The size of the pictures, or the name of the resolution while that is not known.
pub open spec fn resolution_text(p: PanelView) -> Seq<char> {
    if p.stream_width > 0 && p.stream_height > 0 {
        text::decimal_text(p.stream_width as nat) + "\u{d7}"@ + text::decimal_text(
            p.stream_height as nat,
        )
    } else {
        p.settings.resolution.label_text()
    }
}

fn clamp_to(value: u32, least: u32, most: u32) -> (nearest: u32)
    ensures
        nearest == clamped(value, least, most),
{
    if value < least {
        least
    } else if value > most {
        most
    } else {
        value
    }
}

fn joined(first: &str, second: &str) -> (text: String)
    ensures
        text@ == first@ + second@,
{
    let mut text = first.to_owned();
    text.append(second);
    text
}

impl Panel {
    pub fn new() -> (panel: Panel)
        ensures
            panel@ == idle(
                (PanelView {
                    settings: default_settings(),
                    status: Seq::empty(),
                    pending_peer: None,
                    active: false,
                    dropped_frames: 0,
                    stream_width: 0,
                    stream_height: 0,
                    video_backend: Seq::empty(),
                    audio_backend: Seq::empty(),
                    fullscreen: false,
                }),
            ),
    {
        Panel {
            settings: PanelSettings {
                mode: Mode::Connect,
                port: DEFAULT_PORT,
                frames_per_second: 60,
                bitrate_mbps: 6,
                resolution: VideoResolution::Native,
                jumbo_datagrams: false,
            },
            status: "Ready".to_owned(),
            pending_peer: None,
            active: false,
            dropped_frames: 0,
            stream_width: 0,
            stream_height: 0,
            video_backend: "initializing".to_owned(),
            audio_backend: "System default output".to_owned(),
            fullscreen: false,
        }
    }

    pub fn settings(&self) -> (settings: PanelSettings)
        ensures
            settings == self@.settings,
    {
        self.settings
    }

    pub fn status(&self) -> (status: &str)
        ensures
            status@ == self@.status,
    {
        self.status.as_str()
    }

    pub fn pending_peer(&self) -> (peer: Option<PeerAddr>)
        ensures
            peer == self@.pending_peer,
    {
        self.pending_peer
    }

    pub fn is_active(&self) -> (active: bool)
        ensures
            active == self@.active,
    {
        self.active
    }

    pub fn dropped_frames(&self) -> (frames: u64)
        ensures
            frames == self@.dropped_frames,
    {
        self.dropped_frames
    }

    pub fn video_backend(&self) -> (backend: &str)
        ensures
            backend@ == self@.video_backend,
    {
        self.video_backend.as_str()
    }

    pub fn audio_backend(&self) -> (backend: &str)
        ensures
            backend@ == self@.audio_backend,
    {
        self.audio_backend.as_str()
    }

    pub fn is_fullscreen(&self) -> (fullscreen: bool)
        ensures
            fullscreen == self@.fullscreen,
    {
        self.fullscreen
    }

    /// The user changed the settings. What cannot be used is brought into range.
    pub fn set(&mut self, settings: PanelSettings)
        ensures
            final(self)@ == (PanelView { settings: usable(settings), ..old(self)@ }),
    {
        self.settings = PanelSettings {
            port: if settings.port == 0 {
                1
            } else {
                settings.port
            },
            frames_per_second: clamp_to(settings.frames_per_second, 15, 120),
            bitrate_mbps: clamp_to(settings.bitrate_mbps, 1, 20),
            ..settings
        };
    }

    /// The bits per second that the user allows for video.
    pub fn bits_per_second(&self) -> (bits: u32)
        ensures
            bits == if self@.settings.bitrate_mbps * 1_000_000 > u32::MAX {
                u32::MAX
            } else {
                (self@.settings.bitrate_mbps * 1_000_000) as u32
            },
    {
        match self.settings.bitrate_mbps.checked_mul(1_000_000) {
            Some(bits) => bits,
            None => u32::MAX,
        }
    }

    /// Something happened in the session.
    pub fn show(&mut self, event: PanelEvent)
        ensures
            final(self)@ == shown(old(self)@, event),
    {
        match event {
            PanelEvent::Listening(address) => {
                self.status = joined("Listening on ", address.as_str());
            },
            PanelEvent::AwaitingApproval => {
                self.status = "Waiting for the host to accept\u{2026}".to_owned();
            },
            PanelEvent::PendingConnection(peer, address) => {
                self.status = joined(address.as_str(), " wants to connect");
                self.pending_peer = Some(peer);
            },
            PanelEvent::Connected(address) => {
                self.status = joined("Connected to ", address.as_str());
                self.pending_peer = None;
            },
            PanelEvent::ConnectionRejected(reason) => {
                self.status = joined("Connection rejected: ", reason.as_str());
            },
            PanelEvent::Disconnected(reason) => {
                self.status = joined("Disconnected: ", reason.as_str());
                self.pending_peer = None;
            },
            PanelEvent::CaptureReady => {
                if self.settings.mode == Mode::Host && self.pending_peer.is_none() {
                    self.status = joined(self.status.as_str(), " \u{b7} capture ready");
                }
            },
            PanelEvent::VideoConfigured(width, height) => {
                self.stream_width = width;
                self.stream_height = height;
            },
            PanelEvent::VideoBackend(backend) => {
                self.video_backend = backend;
            },
            PanelEvent::AudioBackend(backend) => {
                self.audio_backend = backend;
            },
            PanelEvent::FramesDropped(frames) => {
                self.dropped_frames = frames;
            },
            PanelEvent::Error(error) => {
                self.status = joined("Error: ", error.as_str());
            },
        }
    }

    /// A session with this address was started, or could not be.
    pub fn started(&mut self, address: &str, outcome: Result<(), String>)
        ensures
            ({
                let hosting = old(self)@.settings.mode is Host;
                final(self)@ == match outcome {
                    Ok(()) => PanelView {
                        active: true,
                        status: if hosting {
                            "Starting server on "@ + address@ + "\u{2026}"@
                        } else {
                            "Requesting connection to "@ + address@ + "\u{2026}"@
                        },
                        ..idle(old(self)@)
                    },
                    Err(error) => PanelView {
                        status: if hosting {
                            "Unable to start server: "@ + error@
                        } else {
                            "Unable to connect: "@ + error@
                        },
                        ..idle(old(self)@)
                    },
                }
            }),
    {
        self.stop();
        let hosting = self.settings.mode == Mode::Host;
        match outcome {
            Ok(()) => {
                let mut status = joined(
                    if hosting {
                        "Starting server on "
                    } else {
                        "Requesting connection to "
                    },
                    address,
                );
                status.append("\u{2026}");
                self.status = status;
                self.active = true;
            },
            Err(error) => {
                self.status = joined(
                    if hosting {
                        "Unable to start server: "
                    } else {
                        "Unable to connect: "
                    },
                    error.as_str(),
                );
            },
        }
    }

    /// The address that the user typed cannot be used.
    pub fn refuse_address(&mut self, address: &str)
        ensures
            final(self)@ == (PanelView {
                status: "Invalid IP address: "@ + address@,
                ..old(self)@
            }),
    {
        self.status = joined("Invalid IP address: ", address);
    }

    /// The session was stopped.
    pub fn stop(&mut self)
        ensures
            final(self)@ == idle(old(self)@),
    {
        self.status = "Ready".to_owned();
        self.pending_peer = None;
        self.active = false;
        self.dropped_frames = 0;
        self.stream_width = 0;
        self.stream_height = 0;
        self.video_backend = "initializing".to_owned();
        self.audio_backend = "System default output".to_owned();
    }

    /// The user does not want to show the screen to whoever asked.
    pub fn reject(&mut self, address: &str) -> (peer: Option<PeerAddr>)
        ensures
            peer == old(self)@.pending_peer,
            final(self)@ == if peer is Some {
                PanelView { pending_peer: None, status: "Rejected "@ + address@, ..old(self)@ }
            } else {
                old(self)@
            },
    {
        let peer = self.pending_peer;
        if peer.is_some() {
            self.pending_peer = None;
            self.status = joined("Rejected ", address);
        }
        peer
    }

    /// The user pressed F11 or Escape.
    pub fn press(&mut self, f11: bool, escape: bool)
        ensures
            final(self)@ == (PanelView {
                fullscreen: if f11 || (old(self)@.fullscreen && escape) {
                    !old(self)@.fullscreen
                } else {
                    old(self)@.fullscreen
                },
                ..old(self)@
            }),
    {
        if f11 || (self.fullscreen && escape) {
            self.fullscreen = !self.fullscreen;
        }
    }

    /// The label of the button that starts a session.
    pub fn start_label(&self) -> (label: &'static str)
        ensures
            label@ == if self@.settings.mode is Host {
                "Start server"@
            } else {
                "Connect"@
            },
    {
        if self.settings.mode == Mode::Host {
            "Start server"
        } else {
            "Connect"
        }
    }

    /// The size of the pictures, or the name of the resolution while that is not known.
    pub fn resolution_label(&self) -> (label: String)
        ensures
            label@ == resolution_text(self@),
    {
        if self.stream_width > 0 && self.stream_height > 0 {
            let mut label = decimal(self.stream_width as u64);
            label.append("\u{d7}");
            label.append(decimal(self.stream_height as u64).as_str());
            label
        } else {
            self.settings.resolution.label().to_owned()
        }
    }
}

/// Whoever asked to see the screen is asked about until they are let in, rejected or gone,
/// or the session ends.
pub proof fn questions_stay_open(p: PanelView, event: PanelEvent)
    requires
        p.pending_peer is Some,
        !(event is Connected || event is Disconnected || event is PendingConnection),
    ensures
        shown(p, event).pending_peer == p.pending_peer,
{
}

/// What the user chose does not change with what happens in a session.
pub proof fn settings_are_the_users(p: PanelView, event: PanelEvent)
    ensures
        shown(p, event).settings == p.settings,
        idle(p).settings == p.settings,
        usable(usable(p.settings)) == usable(p.settings),
{
}

} // verus!
