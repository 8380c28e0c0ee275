# fast_dav_rs

A WebDAV / CalDAV / CardDAV client whose protocol logic is proved correct
with Verus.

## Layout

- `src/` — the verified library. Every function carries a `requires` /
  `ensures` contract over mathematical models (`Seq`, `Map`, views of the
  library's types), and laws that relate several functions are public proof
  functions (`lemma_*`).
  - `uri`, `percent`: request-URI construction, per-segment
    percent-encoding, RFC 3986 reference resolution and dot-segment removal.
  - `xmlread`, `xmltext`, `names`, `nsscope`, `common`, `multistatus`,
    `bodies`: the `207 Multi-Status` parser and the other response-body
    parsers (lock discovery, `<D:error>`, principal discovery), fed event by
    event from `quick_xml`.
  - `xml`, `requests`, `types`: request bodies (sync-collection, multiget,
    filters, LOCK) and header values.
  - `etag`: entity-tag normalization and `If-Match` validation.
  - `pipeline`, `retry`, `compression`: the decisions of the request
    pipeline (redirects, credential stripping, retries, `Retry-After`,
    request-body compression negotiation) as a state machine.
  - `sync`, `hrefmap`, `multiget`: WebDAV-Sync paging, delta computation,
    and multiget batching.
  - `builder`, `auth`, `message`, `error`: client configuration, OAuth2
    token handling, and error values with their descriptions.
- `app/` — the asynchronous client around the library: hyper/rustls
  transport, the request loop that runs the pipeline's decisions, streaming
  multistatus parsing, sync sessions, and the OAuth2 token provider.
- `tests/` — tests of the library on concrete values.
