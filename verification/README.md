# pwdv

A local encrypted password vault: a command line (`pwdv`) and a window
(`pwdv-gui`, the same program started under that name).

The library under `src/` is written in Verus and verified. It holds the file
format, the two-level key scheme (password → Argon2id → KEK → DEK → vault),
the storage rules over the bytes of a vault file, and every decision of the two
front ends: search and order of the list, drafts and their validation, the
state machine of the main view and of the screens, the inactivity lock, the
self-clearing clipboard, the delay after failed unlocks, the password
generator and the rules of each command.

| Module | Contents |
|---|---|
| `format` | the 130-byte header: `Header::parse`, `Header::to_bytes` |
| `crypto` | `derive_kek`, `seal`, `open`, `reseal`, `change_master`, `VaultKey` |
| `key`, `wipe` | 32-byte keys; zeroing memory that held secrets |
| `store` | what a load, save, create, keyed save or password change reads and writes |
| `vault` | `Entry`, `VaultData` |
| `security` | clocks, deadlines, `IdleTimer`, `Clipboard` |
| `unlock` | the master-password form |
| `search`, `main_view`, `app`, `calendar` | the graphical interface's logic |
| `cli` | the command line's logic and the password generator |
| `text` | characters, whitespace, decimal numbers |

Argon2id and XChaCha20-Poly1305 are the RustCrypto crates, called through a
few trusted wrappers whose contracts name their results. `app/` holds what
cannot be verified: `main`, the terminal, the file system, the worker thread,
serde's JSON and the egui window.
