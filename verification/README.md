# orderflow

Order flow for market charts: footprints, cumulative volume delta, and a price
ladder, on fixed-point prices and quantities.

The library under `src/` is written in Verus and proved against its contracts:

- `units`: prices, price steps and quantities, and how prices are rounded to bins
- `market`: trades and price bars
- `bins`, `ordered`, `sums`: hash maps and ordered maps read entry by entry, and
  sums over them
- `footprint`: the trades of a bar by price, the point of control
- `kline`: bars with footprints, and chart settings
- `cvd`: the cumulative volume delta indicator
- `book`, `trades`: order books and recent trades grouped by a price step
- `grid`, `ladder`, `rows`, `panel`: the price ladder, from its state to what each
  row shows
- `text`: numbers as text

Functions whose names begin with `law_` state what holds of several functions
together. Where a function asks that its sums can be held, another one next to it
tells whether they can (`can_...`, `check_...`).

What is not proved: `bins` calls `rustc_hash` maps, and states what each call does.

`app/` is ordinary Rust: it draws the ladder with iced, stores settings with serde,
and averages with floating-point numbers for the ratio mode of the indicator.
