# svitek

A workspace switcher panel for Sway. One resident process keeps a small picture
of every workspace; a key brings up a panel with all of them, and the pointer,
the wheel or the key itself picks one.

    svitek              run the panel daemon (`exec svitek` in the sway config)
    svitek toggle       show the panel, or hide it if it is up
    svitek show|hide|next|prev|quit

Looking around is free. Resting on a workspace really switches to it, with the
panel left up on top, because sway renders only what it shows. Closing the panel
goes back to where it was opened, and the only way to end up elsewhere is to
choose it.

## Layout

`src/` is the logic, written in Verus and verified. It does no input or output:
each part that has to do with the outside is a state machine that is told what
happened and says what to do next.

| module | what it decides |
|---|---|
| `switcher`, `panel`, `selection` | what every message and gesture does |
| `promises` | what holds of the switcher whatever happens |
| `sway`, `ipc`, `commands` | snapshots, events and commands of sway |
| `capture`, `pump`, `pixels` | which output to capture when, and its thumbnail |
| `capture_promises` | what holds of the captures whatever happens |
| `control`, `cli` | the control socket and the command line |
| `config`, `style`, `layout` | settings, stylesheet, and what goes where |
| `inject` | what the input injector for headless sways is asked for and does |
| `model` | the data the parts share |
| `text`, `lists`, `paths` | strings, sequences and file names |

`app/` is the program around it: GTK, wayland, sockets, threads. `tests/` runs
the library on concrete values.

Every executable function states in its contract what it returns or changes.
What relates several of them stands in public proof functions named `law_...`.
