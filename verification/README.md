# RustConn

A connection manager for SSH, Telnet, serial lines, RDP, VNC and the web. This crate holds its
decisions: what runs, what is shown where, what is said, and what is remembered.

- `src/` is the library. Every function carries its contract, and [Verus](https://github.com/verus-lang/verus)
  proves it. Functions named `law_…` state what holds of several of them together.
- `app/` touches the machine: the configuration file, the environment, processes and
  pseudo-terminals. It asks the library what to do and does it.
- `tests/` runs the library.

| Module | What it decides |
| --- | --- |
| `terminal::notebook` | tabs, splits and windows: where every session is, and what opening, closing, detaching and reconnecting do |
| `terminal::commands`, `terminal::environment` | the command lines and variables of sessions |
| `terminal::pty` | relaying and ending the process behind a session |
| `automation` | answering prompts by rules |
| `launcher` | the external RDP client |
| `secrets`, `vault_miss_cache` | which password stores are usable, and what they were found not to hold |
| `dialogs` | what the dialogs say, and what their buttons do |
| `embedded_toolbar_overflow`, `drawing`, `icon_render` | the embedded viewers |
| `i18n`, `renderer`, `startup_config` | startup |

What the library takes on trust is marked `Trusted:` where it stands.
