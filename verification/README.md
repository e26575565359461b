# DNA Assistant

Screen monitor for the game *Duet Night Abyss*: it watches captured frames,
detects the round HUD, dialogs, the round selection and result screens,
tracks rounds and their durations, and sends desktop and Discord
notifications.

- `src/` is the verified library (Verus). Frames, colour and region
  arithmetic, detectors, round-number parsing, the transition filter, round
  bookkeeping, the per-frame decision state machine (`monitor::session`),
  notification decisions, telemetry settings and the preview/screenshot
  images. Ratios are in basis points, hues in centidegrees and durations in
  milliseconds, so that every contract is exact.
- `app/` is the program around it: logging and OTLP export, settings files,
  toast and webhook delivery, and the capture loop that runs the session.
- `tests/` exercises the library on concrete values.
