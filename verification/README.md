# cinderbox

An interactive terminal wizard that sets up a new software project: project
type and location, version control, languages and their tools, CI and
pre-commit workflows, databases, git remotes and extra files, ending with a
summary to confirm.

## Layout

- `src/` — the verified library (Verus). Every decision the wizard makes is
  here, with contracts over mathematical models:
  - `config.rs` — the configuration being built and its enums;
  - `registry.rs`, `db_registry.rs` — the tool and database-driver catalogs;
  - `validate.rs` — port numbers, branch and remote names;
  - `widgets/text_input.rs` — the single-line text input;
  - `steps/` — one input state machine per step, each with a `wf`
    invariant its `handle_input` keeps, and laws relating its operations
    (restoring then confirming commits the same choices, Tab then BackTab
    returns to the same cell, unticking then ticking keeps what was chosen);
  - `wizard.rs` — moving between steps, the steps without a handler, the
    summary screen;
  - `summary.rs`, `text.rs`, `seqs.rs` — the summary lines and helpers.
- `app/` — the terminal program: reads keys (crossterm), draws (ratatui),
  browses directories (ratatui-explorer), tells the library what the file
  system says about typed paths, and creates the project directory.
- `tests/` — the test suite.
