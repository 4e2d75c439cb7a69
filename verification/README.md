# cpm

A terminal tool that compares the remaining GitHub Copilot premium requests against the
days left in the billing month.

## Layout

- `src/` is the verified library (Verus):
  - `calendar.rs`: the proleptic Gregorian calendar on Unix timestamps (month lengths,
    month starts, the month that holds an instant), with chrono and the system clock
    behind small trusted wrappers; the start of the next month, the length of a month, the
    whole days until the reset. Each function that reads the clock has a companion (`_for`)
    that takes the reading and says exactly when it succeeds.
  - `quota.rs`: the quotas of the Copilot API response and the data that the views show,
    assembled from a response or from a percentage entered by hand; the daily budget of
    premium requests; the metered quotas.
  - `pace.rs`: pace labels and colours, and the summary line over the metered quotas.
  - `prompt.rs`: what each key does to the percentage prompt.
  - `display.rs`: the display styles, the row plan of the progress view, the centred
    popup and the reset date as text.
- `app/` is the program: command line, `gh api` call and JSON, the terminal user
  interface, and the arithmetic on floating-point percentages.
- `tests/` runs the library on concrete values.

Percentages arrive as floating-point numbers. The library carries them in a type
parameter and never computes with them; everything computed from them lives in `app/`.
