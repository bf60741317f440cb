# dig-peer-protocol

The message layer of the DIG Network peer wire, written in Verus: the envelope and its framing, the
opcode namespace, the introducer messages, rate limiting by opcode, and the decisions of a peer
link. The contract of a function says what it returns or changes, and the public proof functions
state what holds across several of them.

| Where | What |
|---|---|
| `src/` | the verified library |
| `tests/` | its tests, among them absolute wire vectors and comparisons with Chia's own encoders |
| `app/` | the websocket link that carries out the library's decisions, and outside traits on its values |

The framing is the one of `chia_protocol::Message`, with the opcode as a raw byte:

```
offset  size        field
0       1           opcode
1       1           0 without a correlation id, another value with one
2       2 (if id)   correlation id, big-endian
+0      4           payload length, big-endian
+4      length      payload
```

Chia's opcodes stay below 200. The DIG band starts at 200: its consensus half is `DigMessageType`,
its free half are the constants from 220 on.

What the library takes from other crates it takes through small functions marked
`#[verifier::external_body]`. The comment above each says which outside function it calls and what
is believed of it.
