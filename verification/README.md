# site_checker

The core of Site Checker, a personal status dashboard for websites and
endpoints, written in Verus and proved against its contracts.

- `src/` is the verified library:
  - `model.rs`: the site record, the interval floor, and the address rules
    (`normalize_url` for what a user types, `openable_url` for what is stored).
  - `store.rs`: the site list with one entry per id, its edits, and turning a
    freshly read list into a store.
  - `check.rs`: status classification and the request sequence of one check
    (HEAD, with a single GET fallback on 405/501).
  - `engine.rs`: the startup offset and what a finished check changes.
  - `commands.rs`: shaping form input into site records; the startup banner.
  - `autostart.rs`: the login item's path rules and reading back a plist.
  - `text.rs`: whitespace trimming, substring search, decimal rendering.
- `app/` is the unverified shell: `sites.json` on disk, HTTP requests,
  timers, locks and the login item, calling the library for every decision.
- `tests/` runs the library on concrete cases.
