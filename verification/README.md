# quicftp

A file service over QUIC with a Chinese/English command language (`用户`,
`密码`, `列表`, `上传`, `下载`, ... or `USER`, `PASS`, `LIST`, `PUT`, `GET`, ...).

The logic lives in `src/` and is verified with Verus:

- `protocol`: commands and responses, their text form and parsing, with the
  round-trip laws for both.
- `framing`: the 8-byte big-endian size prefix of file transfers.
- `path` and `session`: a connection's login state and the resolution of a
  client path to a path on disk, proved never to leave the home directory.
- `handler`: each command as a state machine step over the session; the
  caller inspects the disk or performs a file operation and hands back the
  outcome.
- `user`: the user store and password hashing (Argon2id, through the
  `argon2` crate).
- `shell`: how the client's shell reads a line.
- `admin`, `config`: user management output and the server's defaults.
- `text`: trimming, splitting and decimal numbers over `Seq<char>`.

`app/` holds the programs around the library: the QUIC server and client
(quinn, rustls, rcgen), the TOML files, the command line and the shell's
terminal I/O. `quicftp server [user add|remove|list|password]` runs or manages
the server, `quicftp client -H <host> -p <port>` connects to one.
