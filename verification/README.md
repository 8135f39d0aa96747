# executionbackup

A multiplexer between an Ethereum consensus client and several execution nodes. It keeps the
consensus client running while execution nodes fail, and asks several of them where one should not
be trusted alone.

`src/` is the library, verified with Verus. It decides and does no I/O:

- `request`, `config` and `auth` read a client's request, the command line and the secret, and make
  tokens for the nodes;
- `node`, `standing` and `router` keep what is known of the nodes, and say which of them a request
  goes to; `rounds` states what a round of status checks does to them;
- `forkchoice`, `block` and `reply` turn the nodes' answers into one answer;
- `json` and `text` are what the others are built on.

Documents are `serde_json` values, tokens are made and opened by `jsonwebtoken`, and secrets are
decoded by `hex`. What the library takes on trust from them is written in the contracts of the functions marked
`external_body`, in `json` and `auth`. Functions whose names begin with `law_` state what holds of
several functions together.

`app/` is the program: it sends and receives, and does what the library's actions say. Two things
are worked out there: how many nodes make a majority, which is a fraction of their number, and
whether a payload has the block hash that it claims.

`tests/` runs the library.
