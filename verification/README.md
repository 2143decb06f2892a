# commons_bot

Search for media on Wikimedia Commons: a Telegram bot that runs as an AWS Lambda function, and a
command line tool.

- `src/` is the library, verified with Verus. It reads the search language (`parser`), builds
  requests and filters their results (`commons`, `loading`, `metadata`, `wikidata`), keeps bounded
  caches and pages of results (`commons_cache`, `pagination`), edits and stores preferences
  (`settings`, `preferences`), renders messages (`telegram`, `previews`, `stats`), and decides what
  is done with an update, step by step (`bot`, `conversation`, `idempotency`).
- `app/` is ordinary Rust around it: the Lambda handler, the HTTP clients, the stores, and the
  command line.
- `tests/` are the tests of the library.

An update is handled by a `Conversation`: it names the next action, `app/` does it and hands back
what came of it. The contracts say which action follows which event; the functions whose names
begin with `law_` state what holds of the library as a whole.

Decimal numbers are held as text, in the forms in which they are shown. `app/` reads them.
