//! The sharing end of a desktop session.
//!
//! A host has one viewer at most. Who asks to be let in waits until the user says
//! yes or no. A viewer that falls silent is let in again without asking, if it comes
//! back soon; one that starts anew on the same machine takes its own place.

use crate::clock;
use crate::clock::nanos_since;
use crate::peer::PeerAddr;
use crate::protocol;
use crate::protocol::{
    Packet, PacketView, JUMBO_DATAGRAM_SIZE, MAX_DATAGRAM_SIZE, STANDARD_DATAGRAM_SIZE,
};
use vstd::prelude::*;

verus! {

/// After so many nanoseconds without a word the viewer is taken to be gone.
pub const CONNECTION_TIMEOUT: u64 = 3_000_000_000;

/// For so long a viewer that fell silent is let in again without asking.
pub const RECONNECT_GRACE: u64 = 30_000_000_000;

/// Why a viewer is sent the session config.
#[derive(Clone, Copy, Debug, PartialEq, Eq, Structural)]
pub enum ConfigPurpose {
    /// The user has let it in.
    Accept,
    /// It has asked again.
    Repeat,
    /// It has started anew on the same machine.
    Migrate,
    /// It has come back.
    Restore,
}

/// What the application has to do.
#[derive(Debug, PartialEq, Eq)]
pub enum HostAction {
    /// Send a datagram. It does not matter if it cannot be sent.
    Send { peer: PeerAddr, datagram: Vec<u8> },
    /// Send the session config, and tell the host whether that went well.
    SendConfig { peer: PeerAddr, datagram: Vec<u8>, purpose: ConfigPurpose },
    /// Ask the user whether to let this peer in.
    AskUser(PeerAddr),
    /// This peer is the viewer now.
    Connected(PeerAddr),
    /// Datagrams of this size are used.
    TransportConfigured { datagram_size: usize },
    /// The session config could not be sent to this peer.
    ConfigFailed { peer: PeerAddr, purpose: ConfigPurpose },
    /// This peer does not answer any more.
    Disconnected(PeerAddr),
    /// The next picture has to be a keyframe.
    ForceKeyframe,
}

/// What the application has to do.
#[verifier::ext_equal]
pub enum HostActionView {
    Send { peer: PeerAddr, datagram: Seq<u8> },
    SendConfig { peer: PeerAddr, datagram: Seq<u8>, purpose: ConfigPurpose },
    AskUser(PeerAddr),
    Connected(PeerAddr),
    TransportConfigured { datagram_size: usize },
    ConfigFailed { peer: PeerAddr, purpose: ConfigPurpose },
    Disconnected(PeerAddr),
    ForceKeyframe,
}

impl View for HostAction {
    type V = HostActionView;

    open spec fn view(&self) -> HostActionView {
        match self {
            HostAction::Send { peer, datagram } => HostActionView::Send {
                peer: *peer,
                datagram: datagram@,
            },
            HostAction::SendConfig { peer, datagram, purpose } => HostActionView::SendConfig {
                peer: *peer,
                datagram: datagram@,
                purpose: *purpose,
            },
            HostAction::AskUser(peer) => HostActionView::AskUser(*peer),
            HostAction::Connected(peer) => HostActionView::Connected(*peer),
            HostAction::TransportConfigured { datagram_size } => {
                HostActionView::TransportConfigured { datagram_size: *datagram_size }
            },
            HostAction::ConfigFailed { peer, purpose } => HostActionView::ConfigFailed {
                peer: *peer,
                purpose: *purpose,
            },
            HostAction::Disconnected(peer) => HostActionView::Disconnected(*peer),
            HostAction::ForceKeyframe => HostActionView::ForceKeyframe,
        }
    }
}

/// What actions hold.
pub open spec fn action_views(actions: Seq<HostAction>) -> Seq<HostActionView> {
    actions.map_values(|action: HostAction| action@)
}

/// A peer that asks to be let in, and the largest datagrams that it can take.
#[derive(Clone, Copy, Debug, PartialEq, Eq, Structural)]
pub struct PendingPeer {
    pub peer: PeerAddr,
    pub max_datagram_size: usize,
}

/// A peer that may come back without asking.
#[derive(Clone, Copy, Debug, PartialEq, Eq, Structural)]
pub struct TrustedPeer {
    pub peer: PeerAddr,
    pub datagram_size: usize,
    pub since: u64,
}

/// Everything that a host knows.
#[verifier::ext_equal]
pub struct HostView {
    /// What the application still has to do.
    pub actions: Seq<HostActionView>,
    /// The config for standard datagrams, as JSON text.
    pub standard_config: Seq<u8>,
    /// The config for jumbo datagrams, as JSON text.
    pub jumbo_config: Seq<u8>,
    /// The user wants jumbo datagrams where the viewer can take them.
    pub jumbo_requested: bool,
    /// The viewer.
    pub active_peer: Option<PeerAddr>,
    pub active_datagram_size: usize,
    pub pending_peer: Option<PendingPeer>,
    pub reconnect_peer: Option<TrustedPeer>,
    pub last_seen: Option<u64>,
}

pub struct Host {
    actions: Vec<HostAction>,
    standard_config: Vec<u8>,
    jumbo_config: Vec<u8>,
    jumbo_requested: bool,
    active_peer: Option<PeerAddr>,
    active_datagram_size: usize,
    pending_peer: Option<PendingPeer>,
    reconnect_peer: Option<TrustedPeer>,
    last_seen: Option<u64>,
}

impl View for Host {
    type V = HostView;

    closed spec fn view(&self) -> HostView {
        HostView {
            actions: action_views(self.actions@),
            standard_config: self.standard_config@,
            jumbo_config: self.jumbo_config@,
            jumbo_requested: self.jumbo_requested,
            active_peer: self.active_peer,
            active_datagram_size: self.active_datagram_size,
            pending_peer: self.pending_peer,
            reconnect_peer: self.reconnect_peer,
            last_seen: self.last_seen,
        }
    }
}

/// The host with one more thing to do.
pub open spec fn acting(h: HostView, action: HostActionView) -> HostView {
    HostView { actions: h.actions.push(action), ..h }
}

/// The datagram size to use with a peer that can take datagrams of `max` bytes.
pub open spec fn negotiated_size(jumbo_requested: bool, max: usize) -> usize {
    if jumbo_requested && max >= JUMBO_DATAGRAM_SIZE {
        JUMBO_DATAGRAM_SIZE
    } else {
        STANDARD_DATAGRAM_SIZE
    }
}

/// What a peer says of the datagrams that it can take, within what there is.
pub open spec fn usable_size(advertised: u16) -> usize {
    if advertised < STANDARD_DATAGRAM_SIZE {
        STANDARD_DATAGRAM_SIZE
    } else if advertised > MAX_DATAGRAM_SIZE {
        MAX_DATAGRAM_SIZE
    } else {
        advertised as usize
    }
}

/// The datagram that offers a viewer the streams.
pub open spec fn config_datagram(h: HostView, datagram_size: usize) -> Seq<u8> {
    protocol::encode_packet(
        PacketView::Config(
            if datagram_size == JUMBO_DATAGRAM_SIZE {
                h.jumbo_config
            } else {
                h.standard_config
            },
        ),
    )
}

/// The host sends a peer the config that goes with the datagram size in use.
pub open spec fn config_offered(h: HostView, peer: PeerAddr, purpose: ConfigPurpose) -> HostView {
    acting(
        h,
        HostActionView::SendConfig {
            peer,
            datagram: config_datagram(h, h.active_datagram_size),
            purpose,
        },
    )
}

/// A peer becomes the viewer.
pub open spec fn seated(
    h: HostView,
    peer: PeerAddr,
    datagram_size: usize,
    purpose: ConfigPurpose,
    now: u64,
) -> HostView {
    config_offered(
        acting(
            HostView {
                active_peer: Some(peer),
                active_datagram_size: datagram_size,
                reconnect_peer: None,
                last_seen: Some(now),
                ..h
            },
            HostActionView::ForceKeyframe,
        ),
        peer,
        purpose,
    )
}

/// The user lets a peer in. Nothing happens if it does not ask any more.
pub open spec fn accepted(h: HostView, peer: PeerAddr, now: u64) -> HostView {
    match h.pending_peer {
        Some(pending) => if pending.peer == peer {
            seated(
                HostView { pending_peer: None, ..h },
                peer,
                negotiated_size(h.jumbo_requested, pending.max_datagram_size),
                ConfigPurpose::Accept,
                now,
            )
        } else {
            h
        },
        None => h,
    }
}

/// The text of a refusal, as bytes.
pub open spec fn refusal(reason: Seq<char>) -> Seq<u8> {
    protocol::encode_packet(PacketView::ConnectionRejected(vstd::utf8::encode_utf8(reason)))
}

/// The user does not let a peer in.
pub open spec fn rejected(h: HostView, peer: PeerAddr) -> HostView {
    match h.pending_peer {
        Some(pending) => if pending.peer == peer {
            acting(
                HostView { pending_peer: None, ..h },
                HostActionView::Send { peer, datagram: refusal("Connection rejected by host"@) },
            )
        } else {
            h
        },
        None => h,
    }
}

/// The config that was sent has, or has not, gone out.
pub open spec fn config_sent(
    h: HostView,
    peer: PeerAddr,
    purpose: ConfigPurpose,
    sent: bool,
    now: u64,
) -> HostView {
    match purpose {
        ConfigPurpose::Accept => if sent {
            acting(
                acting(h, HostActionView::Connected(peer)),
                HostActionView::TransportConfigured { datagram_size: h.active_datagram_size },
            )
        } else {
            acting(
                HostView { active_peer: None, ..h },
                HostActionView::ConfigFailed { peer, purpose },
            )
        },
        ConfigPurpose::Repeat => h,
        ConfigPurpose::Migrate => if sent {
            acting(h, HostActionView::Connected(peer))
        } else {
            h
        },
        ConfigPurpose::Restore => if sent {
            acting(h, HostActionView::Connected(peer))
        } else {
            acting(
                HostView {
                    active_peer: None,
                    reconnect_peer: Some(
                        TrustedPeer { peer, datagram_size: h.active_datagram_size, since: now },
                    ),
                    last_seen: None,
                    ..h
                },
                HostActionView::ConfigFailed { peer, purpose },
            )
        },
    }
}

/// A peer was the viewer until a moment ago.
pub open spec fn is_trusted(h: HostView, peer: PeerAddr, now: u64) -> bool {
    match h.reconnect_peer {
        Some(trusted) => trusted.peer == peer && clock::age(now, trusted.since) < RECONNECT_GRACE,
        None => false,
    }
}

/// A peer asks to be let in.
pub open spec fn greeted(h: HostView, peer: PeerAddr, advertised: u16, now: u64) -> HostView {
    match h.active_peer {
        Some(active) => if active == peer {
            config_offered(HostView { last_seen: Some(now), ..h }, peer, ConfigPurpose::Repeat)
        } else if active.ip == peer.ip {
            seated(
                h,
                peer,
                negotiated_size(h.jumbo_requested, usable_size(advertised)),
                ConfigPurpose::Migrate,
                now,
            )
        } else {
            acting(
                h,
                HostActionView::Send { peer, datagram: refusal("Host is already connected"@) },
            )
        },
        None => if is_trusted(h, peer, now) {
            seated(h, peer, h.reconnect_peer->0.datagram_size, ConfigPurpose::Restore, now)
        } else {
            let asked = match h.pending_peer {
                Some(pending) => pending.peer == peer,
                None => false,
            };
            let waiting = HostView {
                pending_peer: Some(
                    PendingPeer { peer, max_datagram_size: usable_size(advertised) },
                ),
                ..h
            };
            if asked {
                waiting
            } else {
                acting(waiting, HostActionView::AskUser(peer))
            }
        },
    }
}

/// A packet arrives.
pub open spec fn packet_received(h: HostView, peer: PeerAddr, packet: PacketView, now: u64) -> HostView {
    let from_viewer = h.active_peer == Some(peer);
    match packet {
        PacketView::Hello { max_datagram_size } => greeted(h, peer, max_datagram_size, now),
        PacketView::Ping(id) => if from_viewer {
            acting(
                HostView { last_seen: Some(now), ..h },
                HostActionView::Send {
                    peer,
                    datagram: protocol::encode_packet(PacketView::Pong(id)),
                },
            )
        } else {
            h
        },
        PacketView::VideoKeyframeRequest => if from_viewer {
            acting(HostView { last_seen: Some(now), ..h }, HostActionView::ForceKeyframe)
        } else {
            h
        },
        _ => h,
    }
}

/// A datagram arrives. What is not a packet is ignored.
pub open spec fn datagram_received(h: HostView, peer: PeerAddr, data: Seq<u8>, now: u64) -> HostView {
    match protocol::parsed_packet(data) {
        Ok(packet) => packet_received(h, peer, packet, now),
        Err(_) => h,
    }
}

/// A viewer that has been silent for too long is given up, but may come back.
pub open spec fn silence_noticed(h: HostView, now: u64) -> HostView {
    match h.last_seen {
        Some(seen) => if clock::age(now, seen) >= CONNECTION_TIMEOUT {
            match h.active_peer {
                Some(peer) => acting(
                    HostView {
                        active_peer: None,
                        reconnect_peer: Some(
                            TrustedPeer { peer, datagram_size: h.active_datagram_size, since: now },
                        ),
                        last_seen: None,
                        ..h
                    },
                    HostActionView::Disconnected(peer),
                ),
                None => HostView { last_seen: None, ..h },
            }
        } else {
            h
        },
        None => h,
    }
}

/// A peer that did not come back soon has to ask again.
pub open spec fn trust_ended(h: HostView, now: u64) -> HostView {
    match h.reconnect_peer {
        Some(trusted) => if clock::age(now, trusted.since) >= RECONNECT_GRACE {
            HostView {
                reconnect_peer: None,
                active_datagram_size: STANDARD_DATAGRAM_SIZE,
                ..h
            }
        } else {
            h
        },
        None => h,
    }
}

/// What a host does after it has waited for a datagram.
pub open spec fn concluded(h: HostView, now: u64) -> HostView {
    trust_ended(silence_noticed(h, now), now)
}

fn negotiate(jumbo_requested: bool, max: usize) -> (size: usize)
    ensures
        size == negotiated_size(jumbo_requested, max),
{
    if jumbo_requested && max >= JUMBO_DATAGRAM_SIZE {
        JUMBO_DATAGRAM_SIZE
    } else {
        STANDARD_DATAGRAM_SIZE
    }
}

fn clamp_size(advertised: u16) -> (size: usize)
    ensures
        size == usable_size(advertised),
{
    let size: usize = advertised as usize;
    if size < STANDARD_DATAGRAM_SIZE {
        STANDARD_DATAGRAM_SIZE
    } else if size > MAX_DATAGRAM_SIZE {
        MAX_DATAGRAM_SIZE
    } else {
        size
    }
}

impl Host {
    /// A host without a viewer, with the two forms of its session config.
    pub fn new(standard_config: Vec<u8>, jumbo_config: Vec<u8>, jumbo_requested: bool) -> (host:
        Self)
        ensures
            host@ == (HostView {
                actions: Seq::empty(),
                standard_config: standard_config@,
                jumbo_config: jumbo_config@,
                jumbo_requested,
                active_peer: None,
                active_datagram_size: STANDARD_DATAGRAM_SIZE,
                pending_peer: None,
                reconnect_peer: None,
                last_seen: None,
            }),
            host_valid(host@),
    {
        let host = Host {
            actions: Vec::new(),
            standard_config,
            jumbo_config,
            jumbo_requested,
            active_peer: None,
            active_datagram_size: STANDARD_DATAGRAM_SIZE,
            pending_peer: None,
            reconnect_peer: None,
            last_seen: None,
        };
        assert(action_views(host.actions@) =~= Seq::empty());
        host
    }

    /// Takes over what there is to do, in the order in which it is to be done.
    pub fn take_actions(&mut self) -> (actions: Vec<HostAction>)
        ensures
            action_views(actions@) == old(self)@.actions,
            final(self)@ == (HostView { actions: Seq::empty(), ..old(self)@ }),
    {
        let mut actions: Vec<HostAction> = Vec::new();
        std::mem::swap(&mut actions, &mut self.actions);
        assert(action_views(self.actions@) =~= Seq::empty());
        actions
    }

    pub fn active_peer(&self) -> (peer: Option<PeerAddr>)
        ensures
            peer == self@.active_peer,
    {
        self.active_peer
    }

    pub fn active_datagram_size(&self) -> (size: usize)
        ensures
            size == self@.active_datagram_size,
    {
        self.active_datagram_size
    }

    fn act(&mut self, action: HostAction)
        ensures
            final(self)@ == acting(old(self)@, action@),
    {
        let ghost before = self.actions@;
        self.actions.push(action);
        assert(action_views(self.actions@) =~= action_views(before).push(action@));
    }

    fn offer_config(&mut self, peer: PeerAddr, purpose: ConfigPurpose)
        ensures
            final(self)@ == config_offered(old(self)@, peer, purpose),
    {
        let mut datagram: Vec<u8> = Vec::new();
        if self.active_datagram_size == JUMBO_DATAGRAM_SIZE {
            Packet::Config(self.jumbo_config.as_slice()).encode(&mut datagram);
        } else {
            Packet::Config(self.standard_config.as_slice()).encode(&mut datagram);
        }
        self.act(HostAction::SendConfig { peer, datagram, purpose });
    }

    fn seat(&mut self, peer: PeerAddr, datagram_size: usize, purpose: ConfigPurpose, now: u64)
        ensures
            final(self)@ == seated(old(self)@, peer, datagram_size, purpose, now),
    {
        self.active_datagram_size = datagram_size;
        self.active_peer = Some(peer);
        self.reconnect_peer = None;
        self.last_seen = Some(now);
        self.act(HostAction::ForceKeyframe);
        self.offer_config(peer, purpose);
    }

    fn refuse(&mut self, peer: PeerAddr, reason: &str)
        ensures
            final(self)@ == acting(
                old(self)@,
                HostActionView::Send { peer, datagram: refusal(reason@) },
            ),
    {
        let mut datagram: Vec<u8> = Vec::new();
        Packet::ConnectionRejected(reason.as_bytes()).encode(&mut datagram);
        self.act(HostAction::Send { peer, datagram });
    }

    /// The user lets a peer in.
    pub fn accept(&mut self, peer: PeerAddr, now: u64)
        ensures
            final(self)@ == accepted(old(self)@, peer, now),
    {
        match self.pending_peer {
            Some(pending) => {
                if pending.peer == peer {
                    self.pending_peer = None;
                    let size: usize = negotiate(self.jumbo_requested, pending.max_datagram_size);
                    self.seat(peer, size, ConfigPurpose::Accept, now);
                }
            },
            None => {},
        }
    }

    /// The user does not let a peer in.
    pub fn reject(&mut self, peer: PeerAddr)
        ensures
            final(self)@ == rejected(old(self)@, peer),
    {
        match self.pending_peer {
            Some(pending) => {
                if pending.peer == peer {
                    self.pending_peer = None;
                    self.refuse(peer, "Connection rejected by host");
                }
            },
            None => {},
        }
    }

    /// The session config went out to a peer, or could not be sent.
    pub fn conclude_config(&mut self, peer: PeerAddr, purpose: ConfigPurpose, sent: bool, now: u64)
        ensures
            final(self)@ == config_sent(old(self)@, peer, purpose, sent, now),
    {
        match purpose {
            ConfigPurpose::Accept => {
                if sent {
                    let datagram_size: usize = self.active_datagram_size;
                    self.act(HostAction::Connected(peer));
                    self.act(HostAction::TransportConfigured { datagram_size });
                } else {
                    self.active_peer = None;
                    self.act(HostAction::ConfigFailed { peer, purpose });
                }
            },
            ConfigPurpose::Repeat => {},
            ConfigPurpose::Migrate => {
                if sent {
                    self.act(HostAction::Connected(peer));
                }
            },
            ConfigPurpose::Restore => {
                if sent {
                    self.act(HostAction::Connected(peer));
                } else {
                    self.active_peer = None;
                    self.reconnect_peer = Some(
                        TrustedPeer { peer, datagram_size: self.active_datagram_size, since: now },
                    );
                    self.last_seen = None;
                    self.act(HostAction::ConfigFailed { peer, purpose });
                }
            },
        }
    }

    fn greet(&mut self, peer: PeerAddr, advertised: u16, now: u64)
        ensures
            final(self)@ == greeted(old(self)@, peer, advertised, now),
    {
        match self.active_peer {
            Some(active) => {
                if active == peer {
                    self.last_seen = Some(now);
                    self.offer_config(peer, ConfigPurpose::Repeat);
                } else if active.ip == peer.ip {
                    // A viewer that was started anew has the same address but
                    // another port.
                    let size: usize = negotiate(self.jumbo_requested, clamp_size(advertised));
                    self.seat(peer, size, ConfigPurpose::Migrate, now);
                } else {
                    self.refuse(peer, "Host is already connected");
                }
            },
            None => {
                let trusted: Option<usize> = match self.reconnect_peer {
                    Some(trusted) => {
                        if trusted.peer == peer && nanos_since(now, trusted.since) < RECONNECT_GRACE {
                            Some(trusted.datagram_size)
                        } else {
                            None
                        }
                    },
                    None => None,
                };
                match trusted {
                    Some(datagram_size) => {
                        self.seat(peer, datagram_size, ConfigPurpose::Restore, now);
                    },
                    None => {
                        let asked = match self.pending_peer {
                            Some(pending) => pending.peer == peer,
                            None => false,
                        };
                        self.pending_peer = Some(
                            PendingPeer { peer, max_datagram_size: clamp_size(advertised) },
                        );
                        if !asked {
                            self.act(HostAction::AskUser(peer));
                        }
                    },
                }
            },
        }
    }

    /// A datagram arrives from a peer when the clock shows `now`.
    pub fn receive(&mut self, peer: PeerAddr, data: &[u8], now: u64)
        ensures
            final(self)@ == datagram_received(old(self)@, peer, data@, now),
    {
        let packet = match Packet::try_from(data) {
            Ok(packet) => packet,
            Err(_) => return,
        };
        let from_viewer = match self.active_peer {
            Some(active) => active == peer,
            None => false,
        };
        match packet {
            Packet::Hello { max_datagram_size } => {
                self.greet(peer, max_datagram_size, now);
            },
            Packet::Ping(id) => {
                if from_viewer {
                    self.last_seen = Some(now);
                    let mut datagram: Vec<u8> = Vec::new();
                    Packet::Pong(id).encode(&mut datagram);
                    self.act(HostAction::Send { peer, datagram });
                }
            },
            Packet::VideoKeyframeRequest => {
                if from_viewer {
                    self.last_seen = Some(now);
                    self.act(HostAction::ForceKeyframe);
                }
            },
            _ => {},
        }
    }

    /// What there is to do after waiting for a datagram.
    pub fn conclude(&mut self, now: u64)
        ensures
            final(self)@ == concluded(old(self)@, now),
    {
        match self.last_seen {
            Some(seen) => {
                if nanos_since(now, seen) >= CONNECTION_TIMEOUT {
                    self.last_seen = None;
                    match self.active_peer {
                        Some(peer) => {
                            self.active_peer = None;
                            self.reconnect_peer = Some(
                                TrustedPeer {
                                    peer,
                                    datagram_size: self.active_datagram_size,
                                    since: now,
                                },
                            );
                            self.act(HostAction::Disconnected(peer));
                        },
                        None => {},
                    }
                }
            },
            None => {},
        }
        match self.reconnect_peer {
            Some(trusted) => {
                if nanos_since(now, trusted.since) >= RECONNECT_GRACE {
                    self.reconnect_peer = None;
                    self.active_datagram_size = STANDARD_DATAGRAM_SIZE;
                }
            },
            None => {},
        }
    }
}

/// What holds of a host between any two steps: jumbo datagrams are used only where
/// the user wants them.
pub open spec fn host_valid(h: HostView) -> bool {
    &&& h.active_datagram_size == STANDARD_DATAGRAM_SIZE || (h.jumbo_requested
        && h.active_datagram_size == JUMBO_DATAGRAM_SIZE)
    &&& h.reconnect_peer is Some ==> (h.reconnect_peer->0.datagram_size == STANDARD_DATAGRAM_SIZE
        || (h.jumbo_requested && h.reconnect_peer->0.datagram_size == JUMBO_DATAGRAM_SIZE))
}

/// No step makes a host use jumbo datagrams that the user does not want.
pub proof fn hosts_stay_valid(
    h: HostView,
    peer: PeerAddr,
    data: Seq<u8>,
    purpose: ConfigPurpose,
    sent: bool,
    now: u64,
)
    requires
        host_valid(h),
    ensures
        host_valid(datagram_received(h, peer, data, now)),
        host_valid(accepted(h, peer, now)),
        host_valid(rejected(h, peer)),
        host_valid(config_sent(h, peer, purpose, sent, now)),
        host_valid(concluded(h, now)),
{
}

/// A peer that does not take jumbo datagrams does not get any, unless it was the viewer a
/// moment ago and took them then.
pub proof fn jumbo_needs_the_viewer(
    h: HostView,
    peer: PeerAddr,
    advertised: u16,
    now: u64,
    later: u64,
)
    requires
        advertised < JUMBO_DATAGRAM_SIZE,
        h.active_peer != Some(peer),
        !is_trusted(h, peer, now),
    ensures
        ({
            let asked = greeted(h, peer, advertised, now);
            let let_in = accepted(asked, peer, later);
            &&& asked.active_peer == Some(peer) ==> asked.active_datagram_size
                == STANDARD_DATAGRAM_SIZE
            &&& h.active_peer is None ==> let_in.active_peer == Some(peer)
                && let_in.active_datagram_size == STANDARD_DATAGRAM_SIZE
        }),
{
}

/// Nobody becomes the viewer by sending datagrams, but for one who takes the place
/// of the viewer on the same machine, and one who was the viewer a moment ago.
pub proof fn strangers_are_not_let_in(h: HostView, peer: PeerAddr, data: Seq<u8>, now: u64)
    ensures
        ({
            let after = datagram_received(h, peer, data, now);
            after.active_peer != h.active_peer ==> {
                &&& after.active_peer == Some(peer)
                &&& match h.active_peer {
                    Some(active) => active.ip == peer.ip,
                    None => is_trusted(h, peer, now),
                }
            }
        }),
{
}

/// While there is a viewer, a peer on another machine gets a refusal when it asks,
/// and nothing else that it sends has any effect.
pub proof fn a_host_has_one_viewer(h: HostView, peer: PeerAddr, data: Seq<u8>, now: u64)
    requires
        h.active_peer is Some,
        h.active_peer->0.ip != peer.ip,
    ensures
        ({
            let after = datagram_received(h, peer, data, now);
            after == h || after == acting(
                h,
                HostActionView::Send { peer, datagram: refusal("Host is already connected"@) },
            )
        }),
{
}

/// A viewer that falls silent and comes back within the grace period is the viewer
/// again, with the datagram size that it had.
pub proof fn viewers_may_come_back(
    h: HostView,
    peer: PeerAddr,
    advertised: u16,
    silent: u64,
    back: u64,
)
    requires
        h.active_peer == Some(peer),
        h.last_seen is Some,
        clock::age(silent, h.last_seen->0) >= CONNECTION_TIMEOUT,
        clock::age(back, silent) < RECONNECT_GRACE,
    ensures
        ({
            let gone = concluded(h, silent);
            let again = greeted(gone, peer, advertised, back);
            &&& gone.active_peer is None
            &&& again.active_peer == Some(peer)
            &&& again.active_datagram_size == h.active_datagram_size
        }),
{
}

} // verus!
