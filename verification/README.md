# my_scrobbler

Scrobbles what Apple Music plays to Last.fm.

- `src/` is the verified library:
  - `player_state`: the player states and how their names are read;
  - `track`: a played track, when it may be scrobbled and after how much
    listening time (half its length, at most four minutes);
  - `scrobbler`: the manager that follows play, pause, resume and stop events
    and decides what to announce, scrobble or skip. It is a state machine:
    each event returns the actions to carry out, and the outcome of a
    scrobble is handed back before the next event;
  - `config`: the `config.env` format (`KEY=value` lines, `#` comments);
  - `credentials`: the Last.fm settings taken from the configuration;
  - `error`: the error types and their messages;
  - `text`: small string helpers.
- `app/` is the macOS program: it reads the configuration file, reads the
  password from the keychain, signs in to Last.fm, listens to Apple Music's
  notifications and performs the manager's actions.
- `tests/` exercises the library.
