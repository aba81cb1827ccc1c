# phonto

Video wallpapers for Wayland compositors and macOS, with the decisions proved in Verus.

`src/` is a library without I/O. It says what is to be played where, and what has to happen
next; whoever drives it acts and reports back.

| Module | What it decides |
|---|---|
| `config`, `cli`, `plan` | which video goes to which display, from flags and the configuration |
| `wallpaper` | which files of the search paths are wallpapers, and which one is picked |
| `displays`, `scale`, `cache`, `paths`, `text` | how displays are listed, videos scaled, files named |
| `backend::wayland` | a run on the outputs of a compositor, from the first surface to hotplug and pauses |
| `backend::macos` | which screen shows which player, pauses, and the crossfade between videos |
| `macos_live_lockscreen` | the encoding of a video, its entry in the catalog of aerial wallpapers, and the order of the steps |
| `injector`, `json` | an entry among the landscapes of the wallpaper picker |
| `screensaver` | the view of the screen saver |
| `decoder`, `wayland` | one video on one background surface |

The proof functions whose names end in `_law` state what holds of the library as a whole. What
is taken from other crates and from the standard library without proof is declared in `text`,
`json`, `wallpaper`, `backend::macos::shuffle_observer` and `macos_live_lockscreen::install`,
each with a comment that says what is claimed.

`app/` is the program: it speaks to Wayland, GStreamer, OpenGL, AppKit, AVFoundation and
VideoToolbox, and reads and writes the files. `tests/` runs the library on concrete values.
