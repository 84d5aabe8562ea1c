# pf_core

The core of the ParcFerme desktop client: it installs racing-sim setups
from parcferme.cc into the right sim folder, handles `parcferme://equip`
links, identifies local setup files before they are shared, and keeps the
device linked to the user's account.

The library in `src/` is written in Verus and verified: every public
function carries a contract over a mathematical model (character
sequences for text and paths), and the properties the library promises —
a sanitized file name can never leave the setups folder, the placement of a
download never clobbers a different file under "keep both", the car matcher
only ever names a car it was given and declines on a tie, edit distance is
symmetric, and so on — are stated and proved as `law_*` proof functions or
as postconditions.

What lies outside the library is not proved. The OS keychain's contents
are outside state: the keychain functions fix which entry each one opens
(the device-token or the profile account of the app's service) and what
each answer of the keychain means, but not what the keychain answers. The
gzip stream and the `Debug` and lossy-UTF-8 renderings of text are named
results of `flate2` and `std`, not defined here.

Layout:

- `src/text.rs`, `src/pathstr.rs` — text and path helpers with exact
  specifications; a path's components are separated by `/` or `\`.
- `src/sim.rs` — the supported sims, their ids, formats and folder layouts.
- `src/car_aliases.rs`, `src/car_match.rs`, `src/cars.rs` — turning a
  folder id into the site's car name.
- `src/deeplink.rs`, `src/download.rs`, `src/paths.rs` — equip links, safe
  file names, numbered copies, placement under a conflict policy, target
  folders.
- `src/install.rs` — installing one setup as a sequence of steps whose
  outside work the application performs.
- `src/upload.rs` — reading sim, car and track off a picked file's path.
- `src/api.rs`, `src/auth.rs` — what the device API's answers mean; the
  keychain-held device token.
- `src/settings.rs`, `src/session.rs`, `src/sync.rs`, `src/team_sync.rs`,
  `src/lmu.rs`, `src/commands.rs`, `src/error.rs` — settings, recorded
  sessions, the background engines' decisions, telemetry pacing, and the
  shapes the UI receives.
- `app/` — the I/O around the library: HTTP, files, the environment, JSON,
  and the few floating-point telemetry rules.
- `tests/` — example-based tests of the library.
