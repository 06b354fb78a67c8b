# hyprstate

Lid, monitors, profiles, locking, suspend, power and GPU selection for Hyprland sessions,
as one state machine.

- `src/` is the library. It decides. Its functions are verified against their contracts,
  and the properties that span functions are stated as public proof functions. What is
  believed without proof is listed below.
- `app/` is the program around it: files, buses, sockets, timers and the command line. It
  reads, hands plain values to the library and does what comes back.
- `tests/` runs the library.

## How the library is laid out

| Modules | What they hold |
| --- | --- |
| `text`, `number`, `order`, `json` | texts, numbers, sorting and JSON as contracts need them |
| `fsm`, `power`, `gpu`, `profiles` | the rules: transitions, power policy, GPU selection, profiles |
| `hypridle_log`, `hyprctl`, `hypr_instance`, `sysfs`, `startup`, `sources` | what readings of the system mean |
| `ctx`, `event`, `tasks` | the daemon's context, its events, and what it asks of the world |
| `main_flow`, `profile_flow`, `power_flow`, `gpu_flow`, `reconcile` | what each task comes to |
| `dispatcher`, `safety`, `policy_run`, `progress` | the loop that takes events and hands out actions, what no run of it ever does, and that every run ends |
| `effectors`, `telemetry`, `gpu_drift`, `power_policy` | commands, frames for observers, advice, brightness |
| `knobs`, `powerd`, `sleep_hook` | the power service and the hook around a suspend |
| `power_cli`, `gpu_cli`, `gpu_state`, `suspend`, `paths`, `handoffs` | the commands, the files they work on, and that what is written there is read back |
| `toml_profile`, `profile_store`, `profile_cli`, `profile_command`, `profile_toml`, `profile_verify` | profiles on disk: merging, links, conversion, comparison, and how the command ends |

The dispatcher never waits and never touches the world. It takes an event, and hands out
one action after another; whoever runs it performs each action and answers it.

## What is believed without proof

Eight private functions only make a call into `serde_json` or the standard library. Their
contracts are believed, and each says above it what it claims.

| Function | Calls |
| --- | --- |
| `json::parse` | `serde_json::from_slice` |
| `json::get` | `serde_json::Value::get` |
| `json::elements` | `serde_json::Value::as_array` |
| `json::as_text` | `serde_json::Value::as_str` |
| `json::as_integer` | `serde_json::Value::as_i64` |
| `json::quote` | `serde_json::to_string` |
| `text::debug_text` | `Debug` of `str` |
| `hypr_instance::decode_lossy` | `String::from_utf8_lossy` |

Beside them `json` declares the types `serde_json::Value` and `serde_json::Error`. Four
names stand for results that take pages to state: `json::json_of`, `json::parsed_json`,
`text::debug_of` and `hypr_instance::lossy_text`.
