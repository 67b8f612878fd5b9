# onec-debug-adapter

A debug adapter for 1C:Enterprise. It speaks the Debug Adapter Protocol with an editor over
standard input and output, and the remote-debug API with a 1C debug server over HTTP.

The library in `src/` is written in Verus. It decides everything that the adapter does, and its
contracts say what that is. It does no input and output of its own: each step of the adapter takes
an event (a request of the client, a reply of the debug server, the end of a program) and returns
what to say and what to do next. The program in `app/` carries that out.

## Layout

| Module | Contents |
| --- | --- |
| `dap` | frames, responses and events of the Debug Adapter Protocol |
| `adapter` | the state of the adapter, the numbering of its messages, the trace |
| `adapter_requests` | which step serves which request and which reply |
| `adapter_connect` | from `launch` or `attach` to a session, and the start of the client |
| `adapter_session` | the session and its end |
| `adapter_polls` | the polls for debug events |
| `adapter_events` | what debug events change |
| `adapter_targets` | threads, steps, pauses and the attaching of targets |
| `adapter_frames` | stack frames, scopes, variables and references to them |
| `adapter_evaluation` | the evaluation of expressions and variables |
| `adapter_breakpoints` | breakpoints and stops on runtime errors |
| `adapter_laws` | what holds of every step: answers, numbers, order |
| `adapter_invariant` | what holds of every state of a run |
| `debug_server`, `debug_requests`, `debug_replies`, `debug_types` | the remote-debug API |
| `metadata`, `metadata_xml`, `source_tree` | the modules of unpacked configurations and EDT projects |
| `info_base` | which infobase is debugged |
| `platform` | the installed platform, its debug server and its client |
| `json`, `xml`, `text`, `number`, `list`, `ordered` | values and collections |

The contracts speak of a `…View` of each type, which `deep_view` gives. A step of the adapter has a
spec function that maps the state before it and its input to the state after it and what it
returns; its contract is the equality with that function.

What the library takes from `quick_xml`, `base64`, `uuid` and the standard library without proof
stands in functions marked `#[verifier::external_body]`, with a comment that says what is relied on.

`tests/` holds tests of the library, which run it with those crates.
