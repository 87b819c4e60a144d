# iced_layershell

Runs an application of [iced](https://iced.rs) in a window of the Wayland layer shell.

`src/` is a library of the decisions, verified with Verus: which interface is held by whom, what a
refresh and a dispatch do and in which order, what becomes of an action, and in which order events
are handled. It never talks to the compositor itself. Each step says what has to be done next and
takes in what came of it.

`app/` performs those steps with iced and layershellev. The state of the window and the clipboard
come from the program, through the traits of `app/backend.rs`.

| module | |
| --- | --- |
| `user_interface` | managers of the built interfaces, and guards that check one out |
| `action` | what an action of a task comes down to |
| `refresh` | one refresh of the window |
| `update` | feeding messages to the application |
| `dispatch` | one ordinary dispatch of events and messages |
| `application` | the context that handles an event, answer by answer |
| `handling`, `feeding` | what holds of whole events, and of the messages in rows of them |
| `event`, `event_loop` | events, and the order in which they are handled |
| `startup` | what an application is, and how its program starts |
| `outside` | what is taken from `iced_core`, `iced_futures` and `iced_runtime` without proof |
