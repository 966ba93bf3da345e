# cpu_affinity_tool

A tool that starts programs on chosen CPU cores with a chosen priority, keeps their
settings while they run, and creates desktop shortcuts for saved launch rules.

The library under `src/` is verified with Verus. It holds the launch rules and their stable
ids, the launch decision, the post-launch correction of installed applications, the process
settings monitor, the crash-log diagnostics, the single-instance forwarding protocol, the
desktop-shortcut flow, and the parsers the tool reads (desktop entries, `.url` files,
`/proc` records, PowerShell JSON, build files). Work that needs the operating system is
left to the caller: each such step is a function from state and the system's answer to the
next state and the next request.

`app/` is a small command-line program around the library for Linux: it reads `/proc`,
desktop files and `.url` files and hands them to the library.

`tests/` runs the library on concrete values.
