# quantsupport

Market conventions, curve configuration and bootstrap planning for
quantitative finance, written in Verus: every function of the library carries
a contract that Verus proves.

Layout:

- `src/` — the verified library: currencies and market indices (with their
  textual forms), quotes and the grammar of quote identifiers, a quote store,
  the selection of quotes through a selector, legs and cashflows, discount
  policies, curve configurations and their resolution into calibration
  instruments sorted by pillar date, the
  dependency order in which curves are bootstrapped, the curve set of one
  bootstrap step, and the market data that each pricer requests.
- `tests/` — tests of the library on concrete values.
- `app/` — serialised configuration files, error messages and reading
  strikes as `f64`.

The numerical parts (root finding, interpolation, automatic differentiation,
closed-form and Monte Carlo pricing) work on floating-point numbers and are
not part of the library.
