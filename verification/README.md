# figbget

Builds the yearly report of a bridge club from the simultaneous
tournaments listed on the Italian bridge federation's site: the
tournaments of a period, the places of the club's players, the prizes
they earn and the period's totals, saved as an xlsx sheet.

- `src/` is the verified library (Verus): text helpers and decimal
  numerals (`testo`), players and prizes (`giocatore`, `ordine`, `confronti`), the club
  (`circolo`) and its totals (`montepremi`), a tournament's ranking (`torneo`), dates and the period
  (`data`, `intervallo`), what is read of the site's pages through
  `scraper` (`pagina`) and the report's steps and totals (`resoconto`).
- `app/` is the program around it: the window (eframe), the downloads
  (ureq), the floating-point figures and the xlsx sheet (rust_xlsxwriter).
- `tests/` runs the library on concrete values.
