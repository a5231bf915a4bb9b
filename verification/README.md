# Raspberry Pi Display

A terminal dashboard for a monitor attached to a Raspberry Pi: a pixel-art
mascot, Clawd, walks above a panel of system stats (temperature, CPU, memory,
load, network, storage, uptime, power supply). Keys switch between the
dashboard, a laptop scene, a suited scene and a roaming scene; a small HTTP API
on `127.0.0.1:9898` does the same from outside.

## Layout

- `src/` is the library, verified with Verus:
  - `clawd` – the sprites' frame counts, palette and the cells a frame paints;
  - `scene` – scene layouts, the bouncing motion and the scene state machine
    (ticks, keys, control commands);
  - `control` – parsing HTTP request lines, routing them to replies or commands,
    and writing HTTP responses;
  - `metrics` – the firmware's throttling report, network totals, disk
    selection and the health rules;
  - `stats_panel` – the panel's texts (byte counts, durations, labels);
  - `sprite_preview` – contact sheets of the sprites as RGBA images;
  - `text` – character classes and number formatting shared by the above.
- `app/` is the program around it: terminal, input, sensors, the TCP server
  and file output.
- `tests/` exercise the library on concrete values.

Run with `cargo run --release`; `--preview-sprites` writes PNG contact sheets
to `target/sprite-previews/`.
