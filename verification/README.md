# zetta

The rules of the Zetta terminal, as a verified library: panes and tabs, pane
layouts, overlays and themes, projects and their registry, profiles, control
requests between processes, detached sessions, and the desktop integration.

`src/` is the library. Every function states what it returns or changes, and
Verus proves it. Public proof functions named `law_…` state what holds of
several functions together: what one call undoes, what reads back, what stays as
it is.

`app/` is the `zetta` command around it: files, sockets, processes, and what is
floating point. `tests/` runs the library on concrete values.

Some conventions of the library:

- Text is seen as a sequence of characters, paths are text, and views, terminals
  and other handles are numbers.
- What only the surroundings can tell (whether a theme exists, which of two
  areas is larger, what a daemon answered) is an argument.
- `windows: bool` selects the path rules of the platform.
