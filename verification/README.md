# jira_commands

The command logic of `jirac`, a Jira command-line client with a full-screen
terminal interface, written as a Verus library: every function in `src/`
carries a `requires` / `ensures` contract that Verus proves.

## Layout

- `src/` — the verified library.
  - Issue input, JQL building, manifests for bulk and batch runs, clone and
    move requests, custom-field prompts and their answers (`issue_input`,
    `jql`, `jql_builder`, `manifest`, `clone`, `custom_fields`, ...).
  - Worklog timestamps and date ranges (`datetime`): parsing, time zones and
    rendering go through `chrono` and `chrono-tz`, whose results the contracts
    name; what the library does with them is proved.
  - Mention notifications, read-state bookkeeping and previews
    (`notifications`), the version check (`version_check`), fix versions and
    their reports (`versions`, `version_views`), sprints, boards and summaries.
  - The terminal interface as a state machine (`tui_app`, `tui_modal`,
    `tui_prefs`, `tui_layout`, `tui_submit`, `keys`, `detail_tabs`): each key
    maps the state and the key to the next state and an action, and the
    contracts say which.
  - Laws are public proof functions named `law_*`, next to the functions
    they relate.
- `tests/` — tests run against the compiled library.
- `app/` — the program around the library: argument parsing, the Jira HTTP
  client, the terminal, prompts and files. It calls the library for every
  decision and performs the actions the library returns.

## Checking

Verus verifies `src/`; the tests run with the outside crates linked.
