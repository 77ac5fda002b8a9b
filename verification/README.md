# MumDota

A Mumble-to-WebRTC voice proxy. Browsers connect over a WebSocket and WebRTC; for each of them
the proxy keeps a connection to a Mumble server and carries Opus both ways, without transcoding.

`src/` is the verified library: what the proxy decides and computes, with its contracts.

| Module | What it decides |
|---|---|
| `config`, `overrides` | when a configuration is valid; `${VAR}` placeholders; `MUMDOTA_*` variables |
| `mumble` | control messages, what each packet does to what is known of the server, the voice loop |
| `bridge` | how long Opus packets last; RTP time to Mumble frame numbers |
| `webrtc` | when SDP offers are made, which ICE candidates wait, one RTP clock per speaker |
| `turn` | short-lived credentials, where the relay may send, frames in TCP and TLS streams |
| `session` | who is connected, who holds a place, what ends with a session, what browsers are told |
| `ws` | the messages, what each leads to, when a connection ends |
| `server` | who may open a WebSocket, what probes are told |
| `ids`, `sdp`, `clock`, `slots`, `net`, `list`, `text` | what the others build on |

Each module ends with its laws: public proof functions that state what holds over several calls.

`tests/` runs the library. `app/` is the program around it: sockets, TLS, WebRTC, HTTP, JSON and
the clock.

    mumdota [config.toml]
