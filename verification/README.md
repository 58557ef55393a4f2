# geotool

Monitoring of injection wells: clients stream pressure, temperature, rate,
density, volume and injectivity series of their wells; a background computer
derives the total injected volume and keeps reduced copies of every series;
a web server shows the series, lets engineers mark injection cycles and
analyse them, and manages companies, wells, tags and users.

## Layout

- `src/` — the verified library (Verus):
  - `query.rs` — planning of a points request: range adjustment to the stored
    extent, the point before the range, and the batches streamed;
  - `navigation.rs` — switching between the analysis pages of a cycle and
    between cycles, on the bytes of a url;
  - `users.rs`, `login.rs` — request guards, visibility of companies, wells,
    cycles and tags, account permissions, the strike counter of logins and
    requests, session tokens, password hashing and checking (argon2, rand);
  - `tags.rs` — built-in and custom tags, resolving the tag of a url, what
    an appended point must satisfy and which appended points are kept;
  - `computer.rs` — how far a well can be computed, where a run starts, its
    hourly steps, the total-volume steps and the share of each rate point,
    reduction decisions;
  - `cycles.rs` — cycles, times sent in milliseconds, durations (hhmmss),
    the cycles timeline, corrections of batch volumes and well data;
  - `pages.rs` — unit labels, login redirects, form checks (regex);
  - `units.rs`, `decimal.rs` — unit systems and decimal texts.
- `tests/` — tests of the library.
- `app/` — the web server (rocket) and the background computer (sqlx,
  tokio): storage, templates, and the floating-point computations (unit
  conversion, down-sampling, FFT, Horner, stiffness and Hall analyses).
