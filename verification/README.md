# stryke-azure

Azure for a host that speaks JSON: operations on resource identifiers, connection
strings, storage addresses, resource names and GUIDs, and calls to Blob Storage, Storage
Queues, Cosmos DB and Key Vault.

- `src/` is the library. It is verified with Verus: every operation has a contract that
  says what it answers, and which error it reports for which input.
- `app/` is the C interface around it, and the calls into the Azure SDK.
- `tests/` runs the library on concrete values.

| Module | Contents |
| --- | --- |
| `resource_id` | Resource identifiers: parse and build |
| `connection_string` | Connection strings: parse and build |
| `storage` | Blob URLs and storage endpoints: parse and build |
| `names` | Storage account, container, queue and table names, Cosmos DB ids |
| `guid` | GUIDs: validate, normalize, format |
| `endpoints` | The service address that a request goes to |
| `blob`, `queue`, `cosmos`, `secrets`, `keys`, `identity` | What a service request asks for, and how it is answered |
| `bridge` | The calls of the host: JSON in, JSON out |
| `answers`, `encoding`, `error`, `json`, `options`, `text` | What the others are made of |

What the library takes from outside without proof is in `encoding` (Base64, URLs and
UTF-8) and at the top of `text` (two functions of the standard library).
