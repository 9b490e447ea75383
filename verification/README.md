# gamemon

A Windows tray program that watches which games run and which window is active, and
switches lighting (OpenRGB, SignalRGB), voice (VoiceAttack) and AutoHotkey profiles to
match; when the user is idle it applies an `Idle` profile, dims the monitors during the
night hours and can start the screensaver. Its settings live in the registry under
`HKLM\Software\GameMon`, one section per monitored program.

## Layout

- `src/` is the verified library (Verus): every decision the program takes and every
  text it writes, with contracts.
  - `text`, `number`, `encode`: text splitting and replacement as `str` does them,
    decimal parsing and printing, the URL encoding of profile names.
  - `process`: the process table (read through `sysinfo`) and the lookups made in it.
  - `profile`, `registry`, `setup`, `settings`: the section records, how they are read
    from registry values, the values written on first run, on activation and by the
    settings windows, and the sorted list of monitors.
  - `idle`: night hours (read through `chrono`) and the idle time.
  - `commands`, `actions`, `monitor`: the plans and reports of switching profiles and
    the decisions of each pass of the monitor loop.
- `app/` is the program around it: registry access, windows, the tray icon, the event
  log, starting processes and HTTP requests. It takes the library's decisions and
  carries them out.
- `tests/` runs the library on concrete values.
