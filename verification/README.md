# screen-dump

`screen-dump` reports the visible macOS windows, their bounds, owning
applications, displays, z-order and window-level Accessibility metadata.

The crate is in two parts:

- `src/` is a library, written in Verus, that holds the decisions and states
  them in contracts: which windows a snapshot keeps (`collector`), which
  display a window belongs to, how Accessibility replies and errors are read
  (`ax`), the human-readable report (`output`), the choice of the display to
  capture (`screenshot`), shell-completion candidates (`completion`), and an
  ordered text map used for per-window diagnostics (`string_map`).
- `app/` is the macOS program around it: command-line parsing, the Core
  Graphics, Accessibility, AppKit and ScreenCaptureKit calls, floating-point
  geometry, JSON output and writing to standard output.

Accessibility permission is required for every snapshot; `--screenshot` also
needs Screen Recording permission.
