# Temperature tracker

The logic of a desktop window that keeps hourly temperatures of a location in a
local cache, brings the cache up to date from Open-Meteo, and plots hourly
values or daily highs and lows in the local time of the location.

`src/` is the verified library.

| module | what it holds |
| --- | --- |
| `calendar`, `date_text`, `text` | the Gregorian calendar, dates as texts, the order of texts |
| `utc` | instants written and read back by chrono |
| `binary64` | double-precision values by their bits: comparison, greatest, least |
| `records`, `daily`, `daily_laws` | temperature records, daily highs and lows by local day |
| `cache` | the rows of the cache |
| `meteo` | requests to the weather service, and its replies |
| `plot`, `hover` | the lines and the frame of the plot, the record under the pointer |
| `weather_app`, `frame`, `whitespace` | the state of the window, and what a frame does before it is drawn |
| `session` | what holds of the window over its whole life |

Temperatures, coordinates and distances are held as the 64 bits of a double.

`app/` is the program around the library: SQLite, HTTP, and drawing with egui.
Its entry point opens the window with eframe 0.27, which `Cargo.toml` does not
list because of the size of what it depends on. Add it there to build the
program; the library and its tests do not need it.
