# cred

A store for secrets: logins, API keys, OAuth applications, SSH keys, notes and
sets of environment variables. Each secret is kept as one encrypted line in the
Engram memory service, or as an opaque entry of another backend. The key that the
lines are encrypted with comes from a YubiKey's HMAC-SHA1 challenge-response.

`src/` is the verified library. It decides; it does no input or output of its
own.

- `value` — secret values, their fields and their redacted previews
- `line`, `secret` — the line format in its three versions, and how secrets are
  written and read
- `order` — lists in the order of their paths, and the newest item of a path
- `backend`, `backend_engram` — the choice of a backend, requests to the Engram
  service, and listing, replacing and finding raw entries
- `store` — the same for decrypted secrets
- `removal` — deleting memories one after the other, and storing once all are
  deleted
- `yubikey` — which programs reach the YubiKey, and what their outcomes mean
- `api`, `error`, `text` — exchanged types, errors, text operations
- `outside` — every call whose contract is taken on trust

Operations that need something from outside are state machines: a step says what
is needed, and is handed what came of it. The laws of the library are the proof
functions whose names start with `law_`.

`app/` runs the steps: HTTP, files, environment variables and programs. The
program that embeds it brings the cipher and the database backend. `tests/` runs
the library on concrete values.
