# r105_ui

The interface of the r105 terminal client as a verified library: the composer and its
suggestions, the transcript with its collapsible sections and filters, slash commands, tool
approvals, sessions, panes, tabs, and everything that is drawn. Each function states in its
contract what it does, and Verus proves it.

## How it works

A `Pane` is one running session and a `UiApp` is the window around the panes. Both change
only through their methods: keys, mouse events and the events of background work go in, and
what the surroundings are to do comes out as a list of `Effect`s and `WindowAsk`s, in order.
What the surroundings know at that moment (whether a line reads as a shell line, what a file
reference stands for, the clock) is handed in with the call.

Every type has a mathematical view (`PaneView`, `DeskView`, `WindowView`, ...), and the
contract of a method says that the new view is an operation of the old one. Public proof
functions next to these operations state what holds of them together: that a redo restores
what was undone, that a dismissed offer stays away, that an event reaches its pane and no
other one.

## Layout

- `src/` is the library.
  - Text and lists: `text`, `scan`, `caret`, `words`, `files`, `idmap`, `numbers`, `pattern`,
    `paths`, `json`.
  - The draft: `composer`, `ghost`, `menus`, `search`, `syntax`, `input`, `keys`, `mouse`.
  - The conversation: `model`, `transcript`, `blocks`, `filters`, `replies`, `render`.
  - Requests and tools: `run`, `requests`, `approvals`, `decisions`, `inbox`, `outcomes`,
    `live`, `shell`, `effects`, `events`.
  - Commands and settings: `commands`, `dispatch`, `choices`, `settings`, `palette`,
    `overlays`, `outside`, `reports`, `sessions`, `skills`, `catalog`.
  - The window: `pane`, `desk`, `window`, `focus`, `pointer`, `layout`, `tabs`, `tabbing`,
    `sidebar`, `listing`.
  - The screen: `paint`, `frames`, `panels`, `cards`, `areas`.
- `app/` is ordinary Rust around the library: the terminal, the clock, files, processes and
  tasks. The rest of the client is behind its trait `Host`.
- `tests/` runs the library.
