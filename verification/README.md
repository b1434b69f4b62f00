# url_shortener

The verified logic of a small URL shortener and paste service, written in Verus.

- `src/` is the library, every function of it verified:
  - `shortener`: short codes (base-64 digits, least significant first), with
    proofs that a code reads back as its number and uses URL-safe characters only;
  - `url`: giving a URL a scheme, proved idempotent;
  - `database`: content types and counts, SQL quoting, and the URL and entry
    submission workflows as state machines that name each statement and take
    the database's answer, with proofs over a model of the tables (what a
    submission stores, and what reading it back gives);
  - `templating`: filling in `{key}` and `{number:key}` placeholders of a page;
  - `text`: characters, decimal numbers and `u8` parsing;
  - `config`, `settings`, `endpoints`, `full_path`: settings types and the
    small decisions of the request handlers.
- `app/` is the web server around it (actix-web, MySQL, configuration files):
  it runs the statements that the library names and serves the pages.
- `tests/` runs the library on concrete values, including an in-memory database.
