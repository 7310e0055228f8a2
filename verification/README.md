# ws-latency-monitor

Measures the round-trip latency of WebSocket pings to Binance, Coinbase, Polymarket and Mexico, and
reports rolling statistics of each: smallest, mean and largest latency, percentiles, jitter and
packet loss.

- `src/` is the verified library. It decides what a session does with each frame and tick, when a
  worker reconnects, what the statistics are and what is shown of them. Latencies are whole
  nanoseconds; means, deviations and shares are exact fractions.
- `app/` is the program around it: arguments, connections, timers, printing, and writing fractions
  as decimal numbers.
- `tests/` runs the library.
