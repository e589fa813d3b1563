# dsh_desktop

The decision logic of DSH Desktop, a tray shell that starts, watches and
stops the local DSH web service on `127.0.0.1:3080`, verified with Verus.

- `src/text.rs`: lines, words, trimming, ASCII case folding, decimal numbers
  and `u32` parsing, each proved against a spec of the matching `str` operation.
- `src/command.rs`: platforms and the command lines handed to the host.
- `src/process.rs`: finding the PID that listens on a port from `netstat` or
  `lsof` output, and the result of killing it.
- `src/service.rs`: start decisions, the stop sequence (port check, PID
  lookup, kill) and the PID to clean up on quit, messages, and the bounded wait
  for the port to be released after a kill.
- `src/setup.rs`: the tool check (`npm`, `npx`, the DSH package) and repair,
  as a state machine that asks the host one question at a time.
- `src/desktop.rs`: interface language, tray menu and window decisions.
- `app/`: the Tauri shell, which runs commands, binds ports and logs, and
  asks the library what to do.
