# sunrise-brightness

Keeps monitor brightness in step with the sun: bright at noon, dim at night, less so under clouds,
and less again on screens that nobody is using.

`src/` is a library verified with Verus. It decides how far the day is, what a forecast says, which
level each monitor gets, what still has to be sent to it, which screens count as idle, and what the
sun loop and the settings window do next. It does no I/O; where a decision needs the outside, a state
machine says what to ask and is told the answer.

- `brightness`: targets, levels, fades and what is still to be sent
- `sun_loop`: the rounds of the sun loop
- `solar`, `weather`, `clock`: sun times, cloud cover and times of day
- `inactive`: idle screens; `inactive::win` on Windows, `inactive::x11`, `inactive::probe` and
  `inactive::panel` on Linux
- `config`, `ui`, `icon`: settings, the settings window and the tray icon
- `number`: binary64 numbers by their bits
- `displays`, `levels`, `text`: sets of displays, levels by device, text

`app/` is the program around it: threads, devices, network, files, the window and the tray. The
brightness curves, the sun's position and the weather factor are floating-point arithmetic and stand
there too, and with the curves the choice of the one that an override follows. None of that is
verified. `tests/` runs the library.
