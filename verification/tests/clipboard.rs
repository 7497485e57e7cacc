use echobind::clipboard::{
    Clipboard, ClipboardBackend, ClipboardError, ClipboardPoll, ClipboardReassembler,
    ClipboardSender, PlatformClipboard, CLIPBOARD_TRANSFER_TTL,
};
use echobind::protocol::ClipboardChunk;
use echobind::protocol_v1::{Packet, PacketParseError};
use std::time::Duration;

#[test]
fn protocol_encodes_and_parses_ping() {
    let mut out = Vec::new();
    Packet::Ping(42).encode(&mut out);
    assert_eq!(Packet::try_from(out.as_slice()), Ok(Packet::Ping(42)));
}

#[test]
fn protocol_encodes_and_parses_audio() {
    let mut out = Vec::new();
    Packet::Audio(&[1, 2, 3]).encode(&mut out);
    assert_eq!(
        Packet::try_from(out.as_slice()),
        Ok(Packet::Audio(&[1, 2, 3][..]))
    );
}

#[test]
fn protocol_encodes_and_parses_clipboard_chunk() {
    let mut out = Vec::new();
    let chunk = ClipboardChunk {
        transfer_id: 7,
        index: 1,
        total: 3,
        payload: b"hello",
    };
    Packet::Clipboard(chunk).encode(&mut out);
    assert_eq!(
        Packet::try_from(out.as_slice()),
        Ok(Packet::Clipboard(chunk))
    );
}

#[test]
fn the_tools_refuse_what_they_do_not_know() {
    let mut out = Vec::new();
    Packet::Hello.encode(&mut out);
    assert_eq!(out, b"ECB1\x01");
    assert_eq!(
        Packet::try_from(&b"ECB2\x01"[..]),
        Err(PacketParseError::Invalid)
    );
    assert_eq!(
        Packet::try_from(&b"ECB1"[..]),
        Err(PacketParseError::TooShort)
    );
    assert_eq!(
        Packet::try_from(&b"ECB1\x06\0"[..]),
        Err(PacketParseError::TooShort)
    );
    assert_eq!(
        Packet::try_from(&b"ECB1\x03\0"[..]),
        Err(PacketParseError::Invalid)
    );
    assert_eq!(
        echobind::protocol::Packet::try_from(out.as_slice()),
        Err(echobind::protocol::PacketParseError::Invalid)
    );
}

#[test]
fn reassembles_out_of_order_clipboard_chunks() {
    let mut reassembler = ClipboardReassembler::new(Duration::from_secs(1));
    let last = ClipboardChunk {
        transfer_id: 1,
        index: 1,
        total: 2,
        payload: b" world",
    };
    let first = ClipboardChunk {
        transfer_id: 1,
        index: 0,
        total: 2,
        payload: b"hello",
    };

    assert_eq!(reassembler.push(last).unwrap(), None);
    assert_eq!(
        reassembler.push(first).unwrap(),
        Some("hello world".to_owned())
    );
}

fn chunk(index: u16, total: u16, payload: &[u8]) -> ClipboardChunk<'_> {
    ClipboardChunk {
        transfer_id: 9,
        index,
        total,
        payload,
    }
}

#[test]
fn transfers_expire_and_complain() {
    let mut reassembler = ClipboardReassembler::new(Duration::from_secs(10));
    assert_eq!(reassembler.push_at(chunk(0, 2, b"a"), 0), Ok(None));
    // Ten seconds later the text is still waited for, a moment later it is not.
    assert_eq!(reassembler.push_at(chunk(0, 2, b"x"), 10_000_000_000), Ok(None));
    assert_eq!(
        reassembler.push_at(chunk(1, 2, b"b"), 20_000_000_000),
        Ok(Some("ab".to_owned()))
    );
    assert_eq!(reassembler.push_at(chunk(0, 2, b"a"), 30_000_000_000), Ok(None));
    assert_eq!(reassembler.push_at(chunk(1, 2, b"b"), 40_000_000_001), Ok(None));
    assert_eq!(
        reassembler.push_at(chunk(0, 3, b"a"), 40_000_000_002),
        Err(ClipboardError::ChunkCountChanged(9))
    );
    let Err(error) = reassembler.push_at(chunk(0, 1, b"a\xff"), 40_000_000_003) else {
        panic!("accepted what is not a text");
    };
    assert_eq!(
        error.message(),
        "clipboard payload is not UTF-8: invalid utf-8 sequence of 1 bytes from index 1"
    );
}

#[test]
fn texts_are_cut_and_put_together() {
    let text = "päckchen ".repeat(1000);
    let mut sender = ClipboardSender::new();
    for round in 1..3_u64 {
        let datagrams = sender.send_text(&text).unwrap();
        assert_eq!(datagrams.len(), text.len().div_ceil(1024));
        let mut reassembler = ClipboardReassembler::new(Duration::from_secs(10));
        let mut arrived = None;
        for datagram in datagrams.iter().rev() {
            let Ok(Packet::Clipboard(chunk)) = Packet::try_from(datagram.as_slice()) else {
                panic!("not a clipboard chunk");
            };
            assert_eq!(chunk.transfer_id, round);
            assert_eq!(arrived, None);
            arrived = reassembler.push(chunk).unwrap();
        }
        assert_eq!(arrived, Some(text.clone()));
    }
    let empty = sender.send_text("").unwrap();
    assert_eq!(empty.len(), 1);
    assert_eq!(
        empty[0],
        b"ECB1\x06\0\0\0\0\0\0\0\x03\0\0\0\x01"
    );
}

#[test]
fn texts_that_are_too_long_are_refused() {
    let mut sender = ClipboardSender::new();
    let text = "x".repeat(65535 * 1024 + 1);
    let Err(error) = sender.send_text(&text) else {
        panic!("sent too long a text");
    };
    assert_eq!(error, ClipboardError::TooManyChunks(65536));
    assert_eq!(
        error.message(),
        "clipboard payload needs 65536 chunks, max supported is 65535"
    );
    assert_eq!(sender.next_transfer_id, 1);
    assert_eq!(
        ClipboardError::ChunkCountChanged(10).message(),
        "clipboard transfer 10 changed chunk count"
    );
}

struct Board {
    text: Option<String>,
    broken: bool,
}

impl ClipboardBackend for Board {
    fn get_text(&mut self) -> Result<Option<String>, ClipboardError> {
        if self.broken {
            return Err(ClipboardError::Backend("broken".to_owned()));
        }
        Ok(self.text.clone())
    }

    fn set_text(&mut self, text: &str) -> Result<(), ClipboardError> {
        if self.broken {
            return Err(ClipboardError::Backend("broken".to_owned()));
        }
        self.text = Some(text.to_owned());
        Ok(())
    }
}

#[test]
fn a_clipboard_sends_only_what_is_new() {
    let board = Board {
        text: Some("one".to_owned()),
        broken: false,
    };
    let mut clipboard = Clipboard::new(board, ClipboardSender::new());
    let ClipboardPoll::Send { text, datagrams } = clipboard.poll() else {
        panic!("did not send a new text");
    };
    assert_eq!((text.as_str(), datagrams.len()), ("one", 1));
    // Until the datagrams have been sent the text stays new.
    assert!(matches!(clipboard.poll(), ClipboardPoll::Send { .. }));
    clipboard.sent(text);
    assert_eq!(clipboard.poll(), ClipboardPoll::Nothing);

    assert_eq!(clipboard.receive_chunk(chunk(0, 1, b"two"), 5), Ok(()));
    assert_eq!(clipboard.backend.text.as_deref(), Some("two"));
    assert_eq!(clipboard.poll(), ClipboardPoll::Nothing);

    clipboard.backend.broken = true;
    assert_eq!(
        clipboard.poll(),
        ClipboardPoll::Failed(ClipboardError::Backend("broken".to_owned()))
    );
    assert_eq!(
        clipboard.receive_chunk(chunk(0, 1, b"three"), 6),
        Err(ClipboardError::Backend("broken".to_owned()))
    );
    assert_eq!(clipboard.last_text.as_deref(), Some("two"));
}

#[test]
fn a_machine_without_a_clipboard_has_nothing_to_send() {
    let mut clipboard = Clipboard::new(PlatformClipboard::new(), ClipboardSender::new());
    assert_eq!(clipboard.poll(), ClipboardPoll::Nothing);
    assert_eq!(clipboard.receive_chunk(chunk(0, 1, b"two"), 5), Ok(()));
    assert_eq!(clipboard.last_text.as_deref(), Some("two"));
}

#[test]
fn a_clipboard_gives_up_a_text_after_ten_seconds() {
    let fresh = || Clipboard::new(PlatformClipboard::new(), ClipboardSender::new());
    let ttl = CLIPBOARD_TRANSFER_TTL;
    assert_eq!(ttl, 10_000_000_000);

    let mut clipboard = fresh();
    assert_eq!(clipboard.receive_chunk(chunk(0, 2, b"a"), 0), Ok(()));
    assert_eq!(clipboard.receive_chunk(chunk(1, 2, b"b"), ttl), Ok(()));
    assert_eq!(clipboard.last_text.as_deref(), Some("ab"));

    let mut clipboard = fresh();
    assert_eq!(clipboard.receive_chunk(chunk(0, 2, b"a"), 0), Ok(()));
    assert_eq!(clipboard.receive_chunk(chunk(1, 2, b"b"), ttl + 1), Ok(()));
    assert_eq!(clipboard.last_text, None);
}
