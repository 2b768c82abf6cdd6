# pappap_chain

The core of a Pappap chain node, written in Verus and proved against its
contracts.

- `src/` is the verified library:
  - `text` — character-level helpers (decimal and zero-padded numbers,
    substring search, UTF-8 byte counts);
  - `store` — a string-keyed map kept as entries with distinct keys. The
    knowledge base and the faucet ledger use it rather than
    `HashMap<String, _>`: vstd's `HashMap` contracts only say something
    about lookups when the key type obeys its key model, which is given for
    integer keys and for `String` is left to an assumption, so with `String`
    keys nothing useful
    about `get` after `insert` could be proved; here the map is proved
    (lookups are linear in the number of keys);
  - `learn` — the self-learning answerer: search query and URL for a
    question, which search results are trusted, what a page teaches, the
    long-term knowledge base, and the per-question state machine whose
    network fetches the caller performs;
  - `explorer` — block listings and details, the network summary, and the
    once-a-day faucet ledger;
  - `crypto` — AES-256-GCM message sealing with a random nonce;
  - `digest` — SHA-256 digests in hexadecimal;
  - `chain` — height and last hash of the local chain, and the landing page;
  - `config`, `transaction` — node settings and transactions.
- `app/` is the node program around it: the HTTP server, the block producer
  loop, the web fetches of the answerer, the message bus, the spiking network
  (floating point) and the wallet table, and the serde forms of the library
  types.
- `tests/` exercise the library on concrete values.
