# animus

A key-value data model (`namespace`, `name`, `key`, `value`), the contracts of
its storage readers, and the logic that carries rows between a REST client and
a REST server, verified with Verus.

Layout:

- `src/` — the verified library.
  - `api`, `kvs_api`: rows, selection directives and selectors, reader metadata.
  - `kvs_rest_common`: the CSV row, the HTTP query of a read with its bounds,
    and the text form of a cursor.
  - `kvs_rest_client`: the paged read of the client (what to ask for next,
    what a page response yields, when reading ends).
  - `kvs_rest_server`: whether a read request is served, what a refused one
    is answered, what a served one sends.
  - `kvs_rest_tests`: client and server together over a storage reader; its
    contract is the law that such a read yields exactly the selected rows.
  - `kvs_tck`: readers of fixed data served page by page, with the pagination
    laws.
  - `rest_common`, `rest_client`: the CSV row, the batch query and the batch
    read of the general API, and the outcome of a transactional upsert.
- `app/` — the asynchronous and networked side: the reader and upsert traits,
  axum routing and CSV streaming, the reqwest clients, the test kit.
- `tests/` — tests of the library.
