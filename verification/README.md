# Echobind

Low-footprint real-time audio and video streaming, with its logic proved in
[Verus](https://github.com/verus-lang/verus).

`src/` is the library. Every function in it has a contract, and Verus proves
it. What an outside crate or the standard library does behind a call is stated
in the contract of a small function around the call, which is trusted; the
documentation of each of them says what is trusted.

`app/` is the program around the library: sockets, threads, audio devices, the
screen, JSON and the window. `tests/` runs the library.

## The library

| Module | What it does |
| --- | --- |
| `bytes` | big-endian numbers |
| `protocol`, `protocol_laws` | the packets of desktop sessions |
| `protocol_v1` | the packets of the command line tools |
| `video`, `reassembly`, `video_laws` | cutting frames into datagrams, and putting them together again, with one lost datagram recovered |
| `clipboard`, `clipboard_laws` | keeping two clipboards the same |
| `decode_queue` | the frames that wait for the decoder |
| `client`, `client_laws`, `session_laws` | the viewer of a desktop session |
| `host` | the host of a desktop session |
| `i420`, `encoder` | bringing captured pictures into the form that the encoder takes, and encoding them with OpenH264 |
| `h264`, `decoder` | the two forms of H.264 video, and decoding it |
| `sender`, `pacer` | sending encoded pictures in order, and spread over time |
| `capture`, `hardware` | watching over capture and encoding on a graphics processor |
| `audio` | rates, frames and playback of sound |
| `record`, `listen` | the two sides of the command line tools |
| `panel` | what the window shows |
| `config`, `cli`, `resolution`, `peer`, `text`, `clock`, `id_map` | what the others share |

The state machines (in `client`, `host`, `record`, `listen`, `sender`,
`capture` and `panel`, with `EncoderState` and `DecoderState`) never read a
clock or touch a socket: they are told what arrived and what time it is, and
say what to do. Times are nanoseconds on a monotonic clock.

## The program

```
echobind record --port 3013
echobind connect --ip X.X.X.X --dest-port 3013 --src-port 3013
echobind desktop
```

The tools and the desktop application use UDP port 3013 unless told otherwise.
A client sends a hello to receive the config, then pings; either side treats 3
seconds without a datagram as a disconnect. Desktop sessions use datagrams of
1400 bytes, or of 8192 bytes where the host enables jumbo datagrams and the
viewer advertises support. Video that waits for more than 25 ms is discarded.
