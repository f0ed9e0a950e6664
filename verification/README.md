# stock-alert

Watches stock positions during trading hours and raises an alert when a
profit threshold, a loss threshold or a half draw-down of the best profit is
reached.

- `src/` is the library, verified with Verus: the alert rules (`engine`),
  the positions and their book (`models`, `monitor`), the push stream's
  message format and reconnection steps (`quote`, `json`), the trading
  calendar (`scheduler`), the monitoring cycle's decisions (`session`),
  recorded-quote playback (`playback`), the alert
  log line (`notify`) and the configuration with its defaults (`config`).
  Prices and volumes are integers in thousandths of a yuan; times are
  integers (nanoseconds or seconds since the Unix epoch).
- `app/` is the program around it: configuration file, SQLite storage,
  the stream client, sound, and the loop that carries out the monitoring
  cycle's steps.
- `tests/` runs the library on concrete values.
