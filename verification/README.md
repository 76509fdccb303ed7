# ZCode cockpit

The rules by which a desktop cockpit keeps several accounts of the ZCode client
and runs several instances of it side by side.

- `src/` is the library. It is written in Verus, and its functions state what
  they return or change. The few of which nothing is stated hand on chance, the
  time of day or a value of another crate. The library holds no I/O: what is
  read from disk, from the environment or from the network comes in as plain
  values, and what is to be written goes out as plain values.
- `tests/` runs the library on concrete values, with the real ciphers, digests
  and JSON underneath.
- `app/` reads and writes the files, asks the billing service and starts the
  processes.

| Module | What it is about |
| --- | --- |
| `text`, `path`, `ordering`, `json`, `encoding` | texts, paths, sorted records, JSON values, base64 and UTF-8 |
| `crypto`, `clock` | digests, the cipher, chance and the time of day |
| `account`, `account_files`, `index` | account records, their files, and the index that lists them |
| `credential`, `credentials_file` | the encrypted form of a credential, and the file in which the client keeps its credentials |
| `quota`, `transfer` | quota replies, export and import |
| `instance`, `launch` | managed instances, and how the client is found, started and closed |

What the library believes of other crates stands in `crypto`, `encoding`, `json`,
`clock` and `text`, each item with a comment that says what is believed.
