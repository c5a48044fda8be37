# Xenon, verified core

Xenon is a small self-hosted chat server (rooms, messages, files, presence)
with an optional Web Push sidecar. This crate holds the parts of both that
decide things, written in Verus and proved against their contracts:

- `models`, `rooms`, `users`, `messages`, `mentions`: room permissions as a
  bit mask, who may post, edit, delete, join, ban, invite, grant and change
  roles, how a page of history is ordered, and who is told about a message.
- `auth`, `ids`, `text`, `sidecar`: session tokens and their stored hashes,
  registration codes, password hashing, uuid text, hex, LIKE escaping, and the
  sidecar's shared-secret check.
- `config`: the server's settings, their defaults and the startup checks.
- `registry`, `presence`, `events`: connected users, their declared status,
  and what a viewer is told.
- `files`: the MIME type and size limit of an upload, and its SHA-256.
- `push`: the sidecar's subscription store, RFC 8291 message encryption,
  RFC 8292 VAPID tokens and keys, and what a push service's answer means.

Calls into `p256`, `hkdf`, `aes-gcm`, `sha2`, `argon2`, `base64`, `hex`,
`uuid`, `infer`, `serde_json`, `reqwest` and `tokio` sit behind small trusted
wrappers whose doc comments say what is assumed of them.

`app/` is the unverified program around the library: the push sidecar's
main loop and HTTP posting, config and key files, and the server's config
file, clock and upload streaming.
