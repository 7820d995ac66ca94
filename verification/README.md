# chonkit

Document parsing, chunking and the decisions around embedding documents into vector
collections, with contracts proved by Verus.

## Layout

- `src/` — the verified library.
  - `text`, `validation`: characters, trimming, lines, decimal numbers; validation rules.
  - `document`, `image`: document types, SHA256 content hashes, images, data URIs.
  - `parser`, `parser_pdf`, `parser_excel`, `parser_docx`: text and sections of PDF page texts,
    spreadsheets (read with `calamine`) and Word documents (read with `docx-rs`); PDF images,
    numbered per page and encoded as WebP.
  - `splitline`, `splitline_laws`: the line chunker and the laws it keeps.
  - `token`, `preview`: token counts (`tiktoken-rs`) and previews of parsing and chunking.
  - `chunk`, `cache`, `embedding`, `embedders`: chunking configurations, cache keys, the checks
    made before embedding, embedding providers' models and requests.
  - `model`, `provider`, `collection`, `vector`, `external`: pagination and sorting, provider
    factories, collection and search payloads, imports from external APIs (step by step).
  - `workflow`: the steps of embedding a document's text or an image into a collection and of
    removing embeddings: from the state so far and what the last outside call found, the next
    state and what to do next.
- `tests/` — tests of the library on concrete values.
- `app/` — a command line front end, PDF reading with pdfium, Word documents read with
  `docx-rs` (whose reader can panic on a damaged archive), serializable copies of the
  configuration types, and the loops that run the library's workflow steps over abstract
  services.

Outside calls are made through small trusted wrappers whose contracts say what the outside
crates' sources show; each has a doc comment naming the function it calls.
