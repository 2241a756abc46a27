# pdf_date

PDF dates (`D:YYYYMMDDHHmmSSOHH'mm'`) read from and written to PDF string
objects, verified with Verus.

- `src/datetime.rs`: the date text of a string object, its parsing into a
  `PdfDateTime` of plain fields, and its PDF form; their contracts are stated
  over the spec functions `datetime_text`, `parse_pdf_date` and `pdf_text`.
- `src/round_trip.rs`: the laws that tie these together.
- `src/text.rs`: decimal digits in ASCII, and ASCII bytes as a `String`.
- `src/object.rs`, `src/error.rs`: the objects and errors of the library.
- `src/chrono_dates.rs`, `src/jiff_dates.rs`, `src/time_dates.rs`: the
  conversions that go through the `chrono`, `jiff` and `time` crates.
- `app/`: the conversions that hold chrono's `DateTime`, which is generic
  over chrono's `TimeZone` trait.
