# P2P Chat

A peer-to-peer chat over libp2p, with its logic verified by Verus.

- `src/` is the verified library: the message encoding, the rules that all nodes share, and
  for each kind of node a function from an event to the action that it calls for.
- `app/` is ordinary Rust around it: it runs the swarms, reads the terminal and the files,
  performs the actions and reports the events.
- `tests/` holds tests of the library.

## Running

Start a relay. It listens for TCP clients at port 8000 and for WebSocket clients at port
8001, and stores the last 500 messages in `storage.json`. The variables `STORAGE_PATH` and
`IDENTITY_PATH` name other files.

    p2p_chat relay

Start a terminal node, with the peer id that the relay printed:

    p2p_chat start --port 0 --relay /ip4/127.0.0.1/tcp/8000/p2p/RELAY_PEER_ID

A browser node is started from a page through `start_chat` and `send_message`.

## Messages

A chat message is a Protocol Buffers message:

    message ChatMessage {
      string id = 1;
      string sender_id = 2;
      string recipient_id = 3;
      string content = 4;
      uint64 timestamp = 5;
    }

Its content is at most 4096 bytes. Messages are gossiped under the topic `global-chat` and
identified by their `id`; bytes that are no message are identified by their BLAKE3 hash.
