# gitway

Biometric unlock for SSH keys, and the `gitway-add` shim that loads keys into an
SSH agent.

A fingerprint cannot decrypt a key.  So the passphrase of a key is kept in the
keystore of the operating system and released after a local biometric check:
`fprintd` in front of the Secret Service keyring on Linux, Touch ID in front of
the Keychain on macOS, Windows Hello in front of the Credential Locker on
Windows.  Unlocking is additive: whatever goes wrong on the way, the user is
asked for the passphrase as before.

## Layout

`src/` is the library.  It is verified with Verus, up to what it calls outside:
the parser, the fingerprints and the decryption of `ssh_key` and `anvil_ssh` and
the exit codes of `anvil_ssh` (in `keys` and `errors`), the clearing of memory by
`zeroize` and the UTF-8 decoder (in `secret`), and two functions of the standard
library (in `text`).  Each of these stands behind a small function, marked
`external_body`, or an `assume_specification`, whose contract is believed.  Where
a result is too long to spell out, a spec function without a body names it:
`private_key_*` and `public_key_*` in `keys`, `debug_text` in `text`.

| Module | What it holds |
|---|---|
| `biometric` | tiers, key identifiers, errors, the auto-unlock decision |
| `vault` | the keystore interface, the choice of the backend |
| `fprintd`, `keyring` | the calls of the Linux backend, one at a time |
| `keychain`, `locker` | the calls of the macOS and the Windows backend |
| `load` | loading key files into the agent |
| `enroll`, `forget`, `report` | the `gitway biometric` commands |
| `agent` | listing, removing, locking and unlocking |
| `args`, `files`, `errors` | the command line, key files, exit codes |
| `keys`, `secret`, `text`, `attributes` | keys, passphrases and texts |

Work that happens outside (D-Bus, the keystores, the agent, files, prompts) is
driven by state machines: each says which call is due, takes the reply, and moves
on.  Their contracts give the next state for every reply, and proof functions at
the end of each module state what holds of every run.

`app/` is the executable around the library: it performs the calls and prints.
`tests/` runs the library with the real `ssh_key`, `anvil_ssh` and `zeroize`.
