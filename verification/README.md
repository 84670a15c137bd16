# esp32s3_collector

Telemetry collector for an ESP32-S3 on a vehicle CAN bus: it decodes DBC
broadcasts and OBD-II answers, writes CSV session files to an SD card,
publishes binary records over MQTT with an SD/backlog fallback when the
link is down, and obeys remote commands.

Layout:

- `src/` is the verified library (Verus). Every rule of the firmware that
  does not touch hardware lives here, with its contract:
  - `types`, `decoder`: CAN frames, DBC and OBD-II decoding, the OBD-II
    round robin and the frames the collector sends;
  - `text`, `csv`, `status`, `diag`: every text line and JSON message,
    formatted into fixed-capacity buffers;
  - `sd_buffer`, `logger`: the 4 KB SD buffer and the routing of lines
    between the card, MQTT and the 50-line backlog;
  - `binary`: the 18-byte record and its batches;
  - `commands`, `session`: remote commands and what each one does, the
    clock, the session timer, the sweeps over the session files and the
    replay of a session file;
  - `bounded_vec`, `can_id`, `std_str`: the calls into `heapless`,
    `embedded-can` and the standard library, with the contracts the rest
    relies on.
- `tests/` runs the library on concrete values.
- `app/` is the firmware around the library: the Embassy tasks, the TWAI
  controller, the SD card, Wi-Fi and MQTT, and the floating-point signal
  values and their decimal rendering.
