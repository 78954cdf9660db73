# tupli

The logic of a desktop database client, written and proved in Verus: the sidebar
tree, the tab strip, the sessions, the settings and the decisions the window
makes.

- `src/` is the verified library. It draws nothing and talks to no server: a
  window is a value, an event is a function from one window to the next, and
  what is to be done outside is left in its outbox.
  - `tree`, `keys`, `folding`, `sidebar`: the catalog as a tree of rows, and
    what is folded, found and clicked in it.
  - `session`: one connection as a state machine, from connecting to a commit.
  - `window`, `pane`, `tabs` and the modules named after what happens
    (`running`, `browsing`, `saving`, `connecting`, `absorbing`, `designing`,
    `following`, ...): the window's state and its transitions.
  - `opening`, `launch`, `ignored`, `driving`: how a window is built, what its
    first frame does, which of its switches say nothing, and what the loop
    around it calls.
  - `record`: what is written down of a window, so that a restart can put it
    back.
  - `commands`, `palette`, `menus`: what can be asked of a window by name, and
    how the lists that ask it read.
  - the modules named `..._laws`: what holds of all of it at once.
  - `settings`, `settings_window`, `settings_pages`, `preferences`: what the
    reader chose, and where they chose it.
  - `icon`, `button`, `label`, `list`, `tab`, `sheet`, `menu`, `elide`, ...: the
    widgets, as the values that are drawn.
  - `text`, `order`, `binary64`, `clock`, `naming`, `wording`: words and figures.
- `tests/` runs the library on concrete values.
- `app/` is ordinary Rust around it: the clock, the environment, the files on
  disk, floating point, and the loop that carries the outbox out.
