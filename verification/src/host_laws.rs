//! What a host promises a viewer, and what the others.

use crate::clock;
use crate::host;
use crate::host::{ConfigPurpose, HostActionView, HostView};
use crate::peer::PeerAddr;
use crate::protocol;
use crate::protocol::{PacketParseError, PacketView};
use vstd::prelude::*;

verus! {

/// The datagram carries the packet.
pub open spec fn carries(data: Seq<u8>, packet: PacketView) -> bool {
    protocol::parsed_packet(data) == Ok::<PacketView, PacketParseError>(packet)
}

/// The config that goes with the datagram size in use, in a datagram.
pub open spec fn config_in_use(h: HostView) -> Seq<u8> {
    protocol::encode_packet(
        PacketView::Config(
            if h.active_datagram_size == 8192 {
                h.jumbo_config
            } else {
                h.standard_config
            },
        ),
    )
}

/// A hello of the viewer, which may have lost the config, is answered with the config for the
/// datagram size in use, and the viewer stays the viewer.
pub proof fn viewers_get_the_config_again(
    h: HostView,
    peer: PeerAddr,
    data: Seq<u8>,
    advertised: u16,
    now: u64,
)
    requires
        h.active_peer == Some(peer),
        carries(data, PacketView::Hello { max_datagram_size: advertised }),
    ensures
        host::datagram_received(h, peer, data, now) == (HostView {
            actions: h.actions.push(
                HostActionView::SendConfig {
                    peer,
                    datagram: config_in_use(h),
                    purpose: ConfigPurpose::Repeat,
                },
            ),
            last_seen: Some(now),
            ..h
        }),
{
}

/// The user is asked about a peer that is not known, once however often it asks, and nobody
/// is let in by that.
pub proof fn the_user_is_asked_once(
    h: HostView,
    peer: PeerAddr,
    data: Seq<u8>,
    advertised: u16,
    now: u64,
    again: Seq<u8>,
    advertised_again: u16,
    later: u64,
)
    requires
        h.active_peer is None,
        h.reconnect_peer is None || h.reconnect_peer->0.peer != peer,
        h.pending_peer is None || h.pending_peer->0.peer != peer,
        carries(data, PacketView::Hello { max_datagram_size: advertised }),
        carries(again, PacketView::Hello { max_datagram_size: advertised_again }),
    ensures
        ({
            let asked = host::datagram_received(h, peer, data, now);
            let twice = host::datagram_received(asked, peer, again, later);
            &&& asked.actions == h.actions.push(HostActionView::AskUser(peer))
            &&& asked.active_peer is None
            &&& asked.pending_peer is Some && asked.pending_peer->0.peer == peer
            &&& advertised < 1400 ==> asked.pending_peer->0.max_datagram_size == 1400
            &&& 1400 <= advertised <= 8192 ==> asked.pending_peer->0.max_datagram_size
                == advertised
            &&& advertised > 8192 ==> asked.pending_peer->0.max_datagram_size == 8192
            &&& twice.actions == asked.actions
            &&& twice.active_peer is None
            &&& twice.pending_peer is Some && twice.pending_peer->0.peer == peer
        }),
{
}

/// A peer that the user lets in becomes the viewer. It is sent the config and gets a keyframe,
/// with jumbo datagrams if both sides want them and standard ones if not.
pub proof fn peers_that_are_let_in_get_the_config(
    h: HostView,
    peer: PeerAddr,
    data: Seq<u8>,
    advertised: u16,
    now: u64,
    later: u64,
)
    requires
        h.active_peer is None,
        h.reconnect_peer is None || h.reconnect_peer->0.peer != peer,
        carries(data, PacketView::Hello { max_datagram_size: advertised }),
    ensures
        ({
            let asked = host::datagram_received(h, peer, data, now);
            let let_in = host::accepted(asked, peer, later);
            &&& let_in.active_peer == Some(peer)
            &&& let_in.pending_peer is None
            &&& let_in.last_seen == Some(later)
            &&& let_in.active_datagram_size == if h.jumbo_requested && advertised >= 8192 {
                8192usize
            } else {
                1400usize
            }
            &&& let_in.actions == asked.actions.push(HostActionView::ForceKeyframe).push(
                HostActionView::SendConfig {
                    peer,
                    datagram: config_in_use(let_in),
                    purpose: ConfigPurpose::Accept,
                },
            )
        }),
{
}

/// Only a peer that asks can be let in or turned away.
pub proof fn nobody_is_let_in_unasked(h: HostView, peer: PeerAddr, now: u64)
    requires
        h.pending_peer is None || h.pending_peer->0.peer != peer,
    ensures
        host::accepted(h, peer, now) == h,
        host::rejected(h, peer) == h,
{
}

/// A peer that the user does not let in is told so, and is not asked about any more.
pub proof fn peers_that_are_turned_away_are_told(h: HostView, peer: PeerAddr)
    requires
        h.pending_peer is Some && h.pending_peer->0.peer == peer,
    ensures
        host::rejected(h, peer) == (HostView {
            actions: h.actions.push(
                HostActionView::Send {
                    peer,
                    datagram: protocol::encode_packet(
                        PacketView::ConnectionRejected(
                            vstd::utf8::encode_utf8("Connection rejected by host"@),
                        ),
                    ),
                },
            ),
            pending_peer: None,
            ..h
        }),
{
}

/// While there is a viewer, a peer on another machine that asks is told so, and nothing else
/// changes.
pub proof fn others_are_told_that_there_is_a_viewer(
    h: HostView,
    peer: PeerAddr,
    data: Seq<u8>,
    advertised: u16,
    now: u64,
)
    requires
        h.active_peer is Some && h.active_peer->0.ip != peer.ip,
        carries(data, PacketView::Hello { max_datagram_size: advertised }),
    ensures
        host::datagram_received(h, peer, data, now) == (HostView {
            actions: h.actions.push(
                HostActionView::Send {
                    peer,
                    datagram: protocol::encode_packet(
                        PacketView::ConnectionRejected(
                            vstd::utf8::encode_utf8("Host is already connected"@),
                        ),
                    ),
                },
            ),
            ..h
        }),
{
}

/// A viewer that was started anew on its machine takes its own place at once: it is sent the
/// config and gets a keyframe.
pub proof fn restarted_viewers_take_their_place(
    h: HostView,
    peer: PeerAddr,
    data: Seq<u8>,
    advertised: u16,
    now: u64,
)
    requires
        h.active_peer is Some && h.active_peer->0 != peer && h.active_peer->0.ip == peer.ip,
        carries(data, PacketView::Hello { max_datagram_size: advertised }),
    ensures
        ({
            let after = host::datagram_received(h, peer, data, now);
            &&& after.active_peer == Some(peer)
            &&& after.last_seen == Some(now)
            &&& after.pending_peer == h.pending_peer
            &&& after.active_datagram_size == if h.jumbo_requested && advertised >= 8192 {
                8192usize
            } else {
                1400usize
            }
            &&& after.actions == h.actions.push(HostActionView::ForceKeyframe).push(
                HostActionView::SendConfig {
                    peer,
                    datagram: config_in_use(after),
                    purpose: ConfigPurpose::Migrate,
                },
            )
        }),
{
}

/// A viewer that comes back in time is sent the config and gets a keyframe, without the user
/// being asked.
pub proof fn returning_viewers_get_the_config(
    h: HostView,
    peer: PeerAddr,
    data: Seq<u8>,
    advertised: u16,
    now: u64,
)
    requires
        h.active_peer is None,
        h.reconnect_peer matches Some(trusted) && trusted.peer == peer && clock::age(
            now,
            trusted.since,
        ) < 30_000_000_000,
        carries(data, PacketView::Hello { max_datagram_size: advertised }),
    ensures
        ({
            let after = host::datagram_received(h, peer, data, now);
            &&& after.active_peer == Some(peer)
            &&& after.reconnect_peer is None
            &&& after.last_seen == Some(now)
            &&& after.active_datagram_size == h.reconnect_peer->0.datagram_size
            &&& after.actions == h.actions.push(HostActionView::ForceKeyframe).push(
                HostActionView::SendConfig {
                    peer,
                    datagram: config_in_use(after),
                    purpose: ConfigPurpose::Restore,
                },
            )
        }),
{
}

/// A viewer that comes back too late is asked about again.
pub proof fn late_viewers_are_asked_about(
    h: HostView,
    peer: PeerAddr,
    data: Seq<u8>,
    advertised: u16,
    now: u64,
)
    requires
        h.active_peer is None,
        h.reconnect_peer is Some && clock::age(now, h.reconnect_peer->0.since) >= 30_000_000_000,
        h.last_seen is None,
        h.pending_peer is None,
        carries(data, PacketView::Hello { max_datagram_size: advertised }),
    ensures
        ({
            let forgotten = host::concluded(h, now);
            &&& forgotten.reconnect_peer is None
            &&& forgotten.active_datagram_size == 1400
            &&& forgotten.actions == h.actions
            &&& host::datagram_received(h, peer, data, now).actions == h.actions.push(
                HostActionView::AskUser(peer),
            )
            &&& host::datagram_received(h, peer, data, now).active_peer is None
        }),
{
}

/// What became of a config that was sent: with it the viewer is connected, and without it a
/// new viewer is not, while one that came back may try again.
pub proof fn configs_connect(h: HostView, peer: PeerAddr, now: u64)
    ensures
        host::config_sent(h, peer, ConfigPurpose::Accept, true, now) == (HostView {
            actions: h.actions.push(HostActionView::Connected(peer)).push(
                HostActionView::TransportConfigured { datagram_size: h.active_datagram_size },
            ),
            ..h
        }),
        host::config_sent(h, peer, ConfigPurpose::Migrate, true, now) == (HostView {
            actions: h.actions.push(HostActionView::Connected(peer)),
            ..h
        }),
        host::config_sent(h, peer, ConfigPurpose::Restore, true, now) == (HostView {
            actions: h.actions.push(HostActionView::Connected(peer)),
            ..h
        }),
        host::config_sent(h, peer, ConfigPurpose::Repeat, true, now) == h,
        host::config_sent(h, peer, ConfigPurpose::Repeat, false, now) == h,
        host::config_sent(h, peer, ConfigPurpose::Migrate, false, now) == h,
        ({
            let failed = host::config_sent(h, peer, ConfigPurpose::Accept, false, now);
            &&& failed.active_peer is None
            &&& failed.actions == h.actions.push(
                HostActionView::ConfigFailed { peer, purpose: ConfigPurpose::Accept },
            )
        }),
        ({
            let failed = host::config_sent(h, peer, ConfigPurpose::Restore, false, now);
            &&& failed.active_peer is None
            &&& failed.last_seen is None
            &&& failed.reconnect_peer is Some
            &&& failed.reconnect_peer->0.peer == peer
            &&& failed.reconnect_peer->0.since == now
            &&& failed.reconnect_peer->0.datagram_size == h.active_datagram_size
            &&& failed.actions == h.actions.push(
                HostActionView::ConfigFailed { peer, purpose: ConfigPurpose::Restore },
            )
        }),
{
}

/// A ping of the viewer is answered with a pong of the same number, and shows that the viewer
/// is there.
pub proof fn pings_are_answered(h: HostView, peer: PeerAddr, data: Seq<u8>, id: u64, now: u64)
    requires
        h.active_peer == Some(peer),
        carries(data, PacketView::Ping(id)),
    ensures
        host::datagram_received(h, peer, data, now) == (HostView {
            actions: h.actions.push(
                HostActionView::Send {
                    peer,
                    datagram: protocol::encode_packet(PacketView::Pong(id)),
                },
            ),
            last_seen: Some(now),
            ..h
        }),
{
}

/// A viewer that needs a keyframe gets one.
pub proof fn keyframes_are_made_for_the_viewer(
    h: HostView,
    peer: PeerAddr,
    data: Seq<u8>,
    now: u64,
)
    requires
        h.active_peer == Some(peer),
        carries(data, PacketView::VideoKeyframeRequest),
    ensures
        host::datagram_received(h, peer, data, now) == (HostView {
            actions: h.actions.push(HostActionView::ForceKeyframe),
            last_seen: Some(now),
            ..h
        }),
{
}

/// What is neither a hello nor comes from the viewer has no effect, nor does anything that
/// only a host sends.
pub proof fn strangers_have_no_effect(h: HostView, peer: PeerAddr, data: Seq<u8>, now: u64)
    requires
        match protocol::parsed_packet(data) {
            Err(_) => true,
            Ok(PacketView::Hello { .. }) => false,
            Ok(PacketView::Ping(_)) => h.active_peer != Some(peer),
            Ok(PacketView::VideoKeyframeRequest) => h.active_peer != Some(peer),
            Ok(_) => true,
        },
    ensures
        host::datagram_received(h, peer, data, now) == h,
{
}

/// A viewer that was heard of less than three seconds ago stays the viewer; one that was not
/// is given up, and may come back.
pub proof fn viewers_are_given_up_after_three_seconds(h: HostView, peer: PeerAddr, now: u64)
    requires
        h.active_peer == Some(peer),
        h.reconnect_peer is None,
        h.last_seen is Some,
    ensures
        clock::age(now, h.last_seen->0) < 3_000_000_000 ==> host::concluded(h, now) == h,
        clock::age(now, h.last_seen->0) >= 3_000_000_000 ==> {
            let after = host::concluded(h, now);
            &&& after.active_peer is None
            &&& after.last_seen is None
            &&& after.actions == h.actions.push(HostActionView::Disconnected(peer))
            &&& after.reconnect_peer is Some
            &&& after.reconnect_peer->0.peer == peer
            &&& after.reconnect_peer->0.since == now
            &&& after.reconnect_peer->0.datagram_size == h.active_datagram_size
            &&& after.pending_peer == h.pending_peer
        },
{
}

} // verus!
