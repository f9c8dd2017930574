# pomodoro

The core of a pomodoro timer that keeps coding agents in touch with their user: hooks
report what agents do and ask for decisions, a gateway on the local machine shows them as
popups, and the user's answer goes back to the agent. The core is a Verus library: what
its functions do is stated in contracts and proved.

## Layout

- `src/` — the verified library.
  - Foundations: `text`, `json`, `time`, `sha1`, `random`, `env`, `paths`, `args`, `lead`.
  - The hook: `proto`, `session`, `cache`, `step`, `ancli`, `cursor`, `opencode`, `codex`,
    `manual`, `install`, `repeat`, `cli`, `http`,
    `chunked`.
  - The gateway: `gateway`, `payload`, `interaction`, `popup`, `relay`, `selftest`.
  - The desktop: `geometry`, `window`, `state`, `tray`, `config`, `about`, `commands`,
    `watchdog`, `smoke`.
- `tests/` — tests of the library through its public functions.
- `app/` — the programs around it: windows, sockets, files and threads.

## Laws

What holds across calls is stated by public proof functions whose names begin with `law_`.
They say, among other things, that only the user decides and that the host gets what the
user decided (`relay`), that a popup nobody answers never allows anything, that a request
from elsewhere than this machine or without the token gets nothing, that at most one popup
is open while those put aside wait on, that installing hooks again leaves the
hosts' hooks and others' entries as they are (`repeat`), and that a docked window stays on
its screen.

## The lead host

Most hosts share one host's hook protocol. Its name is not part of the library: functions
take it as an argument. The programs take it from `POMODORO_LEAD_HOST`, else from
`lead_host.txt` beside the program, else from `POMODORO_LEAD_HOST` as it was set when they
were built. Without a name the hook is not installed for that host.
