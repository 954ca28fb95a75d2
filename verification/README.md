# fish_bot

A chat bot library for the Goofish (闲鱼) marketplace, verified with Verus.

`src/` is the verified library:

- `protocol`, `adapter`, `connection`: the chat protocol — decoding and encoding message
  payloads, reading sync frames into message and system events, acknowledgements, the
  registration, sync and heartbeat frames, and the heartbeat schedule.
- `api`, `sign`, `fish_sign`, `cookies`: the HTTP API — signed MTOP requests, the QR-code
  login state machine, the authentication steps, and the session cookie jar.
- `routing`, `dispatch`, `registry`, `telemetry`: the runtime — the routing table that
  pre-filters messages for the plugins' handlers, the per-plugin run/queue/drop decisions,
  the plugin manager and actor bus, and the counters.
- `plugin`, `builder`, `sdk`, `attrs`, `echo`: plugin declarations — metadata, the builders,
  the attribute language of `#[plugin]` plugins, and the echo plugin.
- `message`, `event`, `rule`, `json`, `text`, `error`, `codec`: the data types, the rules,
  and the calls into serde_json, rmp-serde, base64, md5, regex, rand and uuid.

`app/` is the program around it: the WebSocket connection, the HTTP client, cookie
storage, the plugin host's tasks, its shared dependency container and the typed actor bus,
and the serde form of message segments.

`--cookies "<raw Cookie header>"` adds a browser's cookies to the stored ones before the bot
starts.
