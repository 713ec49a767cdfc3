# DM420 console

The console of an FT8 and FT4 amateur-radio station. One window shows the waterslide of decodes
beside the spectrogram, the log book, the state of the bands, the selected station and a map of
the stations heard and worked.

`src/` is the console's logic, written and proved in Verus. Every function states in its contract
what it returns or changes; the laws that span functions are public proof functions named `law_*`.
`app/` is the window around it: it reads files, draws, and talks to the radio. `tests/` runs the
library on concrete values.

## The library

| module | what it decides |
| --- | --- |
| `types`, `format` | bands, modes, messages and how they are written |
| `text`, `numbers` | characters, lines, words and digits, as sequences |
| `config_toml`, `config_laws` | reading and rewriting the configuration file, line by line |
| `settings`, `settings_laws` | the station, the hardware and the window, from file and environment |
| `choices` | the bands in use and the contest, as the file keeps them |
| `logging` | the filter of the log |
| `ring`, `bus_view` | what the radio has reported, and the requests that go out to it |
| `panel_data` | grids and sections as places, and where a station stands on the map |
| `lane_finder` | the clearest lane for the next CQ |
| `send`, `waterslide_panel` | the send row: commands and the next message |
| `panels::waterfall` | the Digital panel: keys, selection, digits, lines and their places |
| `panels::contacts`, `panels::log_book`, `panels::band_scan`, `panels::band_status`, `panels::call_sign` | the other panels |
| `console` | focus, lock, theme, and when the window is kept |
| `theme`, `flag`, `relief` | letter spacing, flags by country, and the shading of the land |

## Numbers

The library holds no floating-point numbers. Where a float only passes through, it is carried as
its bit pattern; where it is computed with, the library computes with whole numbers: places in
arc seconds, lanes in half hertz, screen places in fractions of a point.

## What is taken on trust

Calls into other crates, and into parts of the standard library that have no specification, stand
behind small declarations whose contracts are believed, not proved: pushing a character onto a
string and upper and lower case of text (`text`), whether a text is a log filter (`logging`), the time of day
of a timestamp (`panels::log_book`), and the decoding of a picture (`relief`). Each says in its
comment what it claims.
