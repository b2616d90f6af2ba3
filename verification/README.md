# recurring

Series of recurring events over civil datetimes, verified with Verus.

A `Series` yields the events of a recurrence `Pattern` within a range of datetimes: fixed
intervals (`secondly`, `minutely`, `hourly`, `daily`, `monthly`, `yearly`, `interval`), cron-like
patterns (`cron`), and combinations of these (`Combine::and`). Series can be iterated from both
ends, searched (`get`, `get_next_after`, `get_previous_before`, `get_closest_to`,
`get_containing`, `find`), rebuilt (`with`) and split (`split_off`).

Calendar arithmetic (adding spans, the weekday of a date, durations and display) is done by
`jiff`; the items that call it live in `src/calendar.rs`, and their contracts are the only
trusted part of the library.

Layout:

- `src/civil.rs`, `src/span.rs`: datetimes and spans as plain values, with their order and limits.
- `src/pattern/`: the recurrence patterns and the helpers they share.
- `src/series/`: series, their builder, iterators, lookups and splitting.
- `app/`: conversions from and to `jiff` values, `Iterator` adapters and `std` error types.
