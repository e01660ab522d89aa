# coster

A library for sharing costs between the people of a group, verified with
Verus, and a small web server around it.

- `src/decimal.rs`, `src/currency.rs`, `src/exchange_rate.rs`: amounts of
  money as decimal numbers in a currency; the arithmetic is done by
  `rust_decimal`, currency codes and names come from `arrayvec` and
  `iso4217`.
- `src/accounting.rs`: a double entry accounting engine; transactions move
  amounts between accounts, and a program of actions is run over the
  states of the accounts.
- `src/costing/`: tabs of users and expenses, the actions users perform on
  them, and the settlements that balance a tab.
- `src/gui/`: the logic of the web interface: validation of form values,
  the form for a new tab, the client's headers, routes, the application
  state and its reducer, a store that reduces the actions dispatched to
  it in turn, and how it notifies its listeners.
- `app/`: the web server (`warp` and `async-graphql`), which serves the API
  and the static files of the interface.
- `tests/`: tests of the library on concrete values.

Each public function of the library states its behaviour in `requires` and
`ensures` clauses that Verus proves; the functions named `law_...` are
proofs of properties that relate several functions.
