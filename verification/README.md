# dinein_takeout_billing

A keyboard-driven point-of-sale system for dine-in restaurants and take-out
counters: floor plan with a table lifecycle, menu search, carts, kitchen order
tickets (KOTs), billing with offers and payment modes, and CSV configuration.

## Layout

- `src/` is the library, verified with Verus. Each public function states in
  its contract what it returns or changes.
  - `text`, `seqs`: text helpers and sequence lemmas.
  - `models`: services, payment modes, order and table states, areas, menu
    items, cart lines, orders, bills and tickets.
  - `cart`: cart editing, merging, and what the next kitchen ticket holds.
  - `tables`: the floor plan: seating, freeing, cleaning and reconciling.
  - `receipts`, `printer`: ticket text, ESC/POS bytes, printer settings and the
    UPI QR drawing.
  - `config`: reading and writing the CSV configuration files.
  - `fuzzy`, `error`: the fuzzy matcher and the error type.
  - `app`: the session: orders, cart, tickets, billing, table moves, reports,
    table search, key handling and start-up. Storage, printing and files are
    handed out as effects for the program to carry out.
- `app/` is the terminal program around the library: the database, the
  printers and files, amounts in rupees (floating point), and drawing.
- `tests/` exercises the library through its public interface.
