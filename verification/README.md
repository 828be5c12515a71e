# bing_hyprpaper

A daemon that downloads Bing's images of the day, keeps a bounded store of
them on disk, and regularly shows a randomly chosen one through hyprpaper.

- `src/` is the verified library (Verus): what to ask the image archive for,
  where images are stored, the stable ordering of stored images by time, which
  images the store gives up when it is over its limit, which files it loads from
  its directory, when the image list is refreshed, which wallpaper comes next,
  and the `hyprctl` command line and how its outcome is read.
- `app/` is the program around it: command line (clap), HTTP (reqwest), the
  file system and timers (tokio), the `hyprctl` process, daemonizing.
- `tests/` runs the library on concrete values.
