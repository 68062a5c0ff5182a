# clockery

A window of clocks, one per configured time zone, each counting down to the
new year in its last twelve hours, with snow falling over every face.

- `src/` is the verified library (Verus): the grid of faces, the snow, the
  texts of each face, word wrapping, the configuration and the main loop's
  decisions.
- `app/` is the program around it: SDL2 window, fonts and drawing, the
  `config.json` file and the command line.

The program loads its fonts at run time from `assets/NotoSans-Regular.ttf`
and `assets/digital.ttf`, and keeps its settings in `./config.json`:

```json
{ "clocks": ["local", "Asia/Bangkok"], "am_pm": false, "revert": false }
```

Keys: `R` reverts the colors, `A` switches to 12 hours, `Q` reloads the
configuration, `Escape` quits (and saves the configuration).
