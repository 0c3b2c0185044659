# investments

Verified trade accounting for a personal investment portfolio, written in Verus.

- `src/decimal.rs`, `src/cash.rs`: decimal numbers as `rust_decimal` holds them, with
  its arithmetic behind specified wrappers, and amounts of money.
- `src/time.rs`: dates and times as `chrono` holds them; the current date and time.
- `src/trades.rs`: forex trades, stock buys and sells, the purchase cost that a sold
  position carries over, FIFO matching of a sell and the calculation of its profit
  and tax.
- `src/ib_trades.rs`: order records of an Interactive Brokers activity statement.
- `src/encoding.rs`, `src/countries.rs`: the primitive values and the country codes
  of the tax statement, with their encoding round trips proved.
- `src/portfolio_statistics.rs`, `src/ordered_map.rs`, `src/analysis.rs`: portfolio
  statistics kept in key order, and the choice of the portfolios to analyse.
- `app/`: the clock sources, log output and the texts of errors and amounts.

The currency converter and the tax rules of a country are traits that the caller
implements; every contract holds whatever they answer.
