# extenddb-storage-mongodb

A storage backend that keeps DynamoDB-style tables in MongoDB. The library under
`src/` is verified with Verus: it decides which database commands an operation
performs, and what it makes of the answers. The crate under `app/` performs the
commands on a server.

## How an operation runs

The library never talks to the database. An operation is a pair of functions:
`*_start` gives the first step, and `*_next` takes the state and what happened
and gives the next one. A step either asks for an action (`protocol::Action`) or
ends with a result. `app/driver.rs` holds the loop that performs the actions.
Simpler operations are a `*_command` and a `*_reply`.

What a step has to be is a spec function next to it (`*_begins`, `*_goes_on`),
over models of the data: a document is an ordered list of names and values
(`bson::DocV`), an item a list of attributes sorted by name (`item::ItemV`).

## What is where

| Files | What they hold |
|---|---|
| `bson`, `item`, `item_json`, `schema`, `schema_json` | values and their stored forms |
| `condition`, `expression`, `sort_key` | condition expressions and key conditions as filters |
| `data`, `put_item`, `update_item`, `delete_item`, `write`, `query`, `walk`, `transact` | items |
| `index_sync`, `follow_up`, `gsi_queue` | secondary indexes |
| `stream`, `stream_admin`, `stream_record`, `sequence` | streams |
| `create_table`, `update_table`, `describe_table`, `table`, `key_info`, `tags`, `worker` | tables |
| `backup`, `restore_backup`, `restore_table`, `recovery`, `point_in_time`, `ttl` | backups, recovery and expiry |
| `accounts`, `identities`, `policies`, `access_keys`, `administration`, `management`, `bootstrap` | management |
| `clock`, `crypto`, `encoding`, `config`, `text` | calls into other crates, with the contracts that are taken on trust |
| `protocol`, `script`, `error` | what all of these share |

Each module ends with its laws: public proof functions that say what holds
across operations, such as that what was stored is read back, or that a
transaction with a refused operation is never committed.

## What is taken on trust

Base64, CRC-32, decimal numbers of 128 bits, AES-GCM, bcrypt, random numbers,
UUIDs, TOML and the clock come from other crates or from std. Each call stands
in a small function of its own whose doc comment says what its contract claims.

Keys as text, evaluation of conditions, application of updates and resource
names are the host's: the library asks for them, or takes them as arguments, and
`app/rules.rs` names them in a trait.
