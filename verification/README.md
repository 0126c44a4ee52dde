# stocktake

The verified core of a stock-take web service for an Infinity Back Office
(MS SQL Server) database: the browser counts items, and a save writes a count
file for the stock-take program and a LabelQuery ticket file for the label
printer.

`src/` is the library, proved with Verus:

- `text` — trimming, splitting, lines and decimal text, with their specifications;
  `text_laws` — lemmas about splitting and joining lines.
- `sql` — quoting of values in SQL text and every query the service sends;
  a quoted value always reads back as itself.
- `catalog` — departments, suppliers, sub-departments and barcodes read from
  result rows, the fixed fallback lists, and the steps of the supplier lookup.
- `search` — the parent/child expansion of the item search.
- `connection` — the service's own connection-string format, what an
  ADO.NET string sets about certificate trust (read with connection-string),
  and the pool manager built with deadpool-tiberius, by the settings it holds.
- `config` — configuration sources, defaults and start-up messages.
- `save`, `tickets` — the count file, the ticket file and how an earlier
  ticket file is read back; `save_laws`, `ticket_laws` — what reading the
  files back gives, including that tickets accumulate across saves.
- `server` — what the routes read from their query strings.

`app/` holds what Verus does not check: the actix-web routes, the database
I/O, reading the TOML files, and the float handling of counts and stock on
hand.
