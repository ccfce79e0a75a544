# zellij_remote

Remote control of Zellij terminal sessions, for programs that have no screen to look at.

- `src/` is the library: what every tool sends, what it answers, which session names may be
  claimed, how a session comes up, when a picture may be taken. Every function states what it
  returns, and Verus proves it, from vstd and from the contracts of five calls that it believes:
  the wrappers of `validate_session_name` of zellij-utils, of base64's encoder, of axum's header
  text and of serde_json's string literal, and std's `String::push`. The `law_` functions state
  what holds across calls.
- `app/` is the server around it: arguments, sockets, processes, the browser.
- `tests/` runs the library on concrete values.

The library makes no connection of its own. Work that needs several of them is a state machine:
it names the next step, `app/` performs it and hands the outcome back.
