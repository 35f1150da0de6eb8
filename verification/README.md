# open_english

The server side of open-english — sign-in, self-update, the file agents,
world-lab pairing and sandboxed computation — as a library verified with
Verus, and a thin program around it.

- `src/` — the verified library. Each module states its behaviour in
  `requires` / `ensures` contracts over mathematical models (`Seq`, `Map`,
  views of its types) and proves them:
  - `auth`: one-time codes by e-mail and SMS, QR confirmation, TOTP sign-in,
    cookie sessions (`AuthState`), login modes;
  - `totp`: base32, RFC 6238 codes, `otpauth://` URIs, QR documents;
  - `updates`: version tags, release assets, the update decisions and the
    health-probe steps;
  - `agents`: allowed directories, path checks, shell quoting, GitHub
    contents encoding;
  - `world_lab`, `guest`, `sandbox`, `worker`: device pairing, the
    WebAssembly sandbox (a `Guest` holds one engine, its store and the
    handles taken from it, with a ghost model of the guest's memory and
    calls; `sandbox` plans and runs a guest against that model) and the
    framing between server and worker process;
  - `web`, `db`, `languages`: query strings, news feeds, DuckDNS, database
    mirrors and backups, the language summary;
  - `text`, `bits`, `rng`, `table`: the string, bit-stream, random and map
    building blocks they share.
- `tests/` — tests run against the compiled library.
- `app/` — the process itself: environment, disk, network, child
  processes, and the calls into the library for every decision.

The items that call into outside crates (`ring`, `hmac`/`sha1`, `qrcode`,
`base64`, `wasmtime` and a few `std` functions) are marked
`#[verifier::external_body]`; their doc comments say what their contracts
claim and what they leave unsaid.
