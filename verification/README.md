# sundownd

A daemon for Android that freezes apps in the background and, after a while, discards them.
It keeps a small set of promises: what is on the white list, exempt, critical, part of the
system, the VPN or in the foreground is left alone; a configuration that does not parse changes nothing;
and no app is discarded that the daemon did not freeze itself, now or in the session before.

`src/` is the library: every decision the daemon takes, written and proved in Verus. It does no
I/O. `app/` is the program around it: sockets, files, control groups, the clock.

## How the two fit together

The engine (`engine*`) is a machine that takes one step at a time. An event such as
`on_focus`, `on_wakeup` or `tick` answers with a `Step`: done, go on with a task, or ask for an
operation on the device. The program performs the operation and hands the reply to `resume`.
The contracts say, for every state, event and reply, what the next state and step are.

## Modules

| Modules | What they hold |
|---|---|
| `text`, `bytes`, `lists`, `names`, `order`, `pids` | texts, byte records, maps and sets by name, sorting |
| `toml`, `policy`, `policy_file`, `preset`, `rules` | the configuration files and what they mean |
| `toml_laws`, `policy_laws`, `rule_laws` | what holds of those files whatever they say |
| `engine`, `engine_ops`, `engine_state`, `engine_rules`, `engine_tick`, `engine_admin` | the engine |
| `engine_laws`, `engine_guards`, `engine_effects` | what holds of the engine whatever happens, and what the rules bring about |
| `freezer`, `network`, `capability` | control groups, traffic counters, what the device can do |
| `events`, `logging`, `paths`, `json` | the event log and the texts that are written |
| `profile`, `profile_laws`, `analyze` | usage profiles, what they add up to, and the advice drawn from them |
| `state`, `protocol`, `sock`, `sock_event`, `sock_admin`, `sock_reports`, `dex`, `session`, `config` | the daemon as its clients see it |

Proof functions named `law_...` state what the parts promise together, for instance that no
step ever freezes a listed package, however it came to wait (`engine_guards`), that a blank
line changes nothing that a file says (`toml_laws`), that the list of frozen apps reads back
as it was written (`freezer`), or that a listener hears exactly what it asked for (`state`).

## What is taken on trust

Two functions of the standard library have contracts that are believed, not proved:
`String::push` (`text`) and `std::str::from_utf8` (`dex`).
