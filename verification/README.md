# cosmic-ext-applet-now-playing (verified core)

A COSMIC panel applet that shows what an MPRIS player is playing. The
library under `src/` holds the applet's logic, verified with Verus:

- `player`: which player the panel follows (a picked source while it exists,
  else a dedicated music player with a track, else MPRIS' playing / paused /
  with-track / first order among the players that are not browsers, and
  among browsers only when nothing else is there), the player's icon, and
  the confirmed shuffle and repeat changes.
- `metadata`: the snapshot the panel shows, from choosing the player to
  building it from what was read of it, and when two snapshots differ in a
  way that matters.
- `artwork`: where a cover is found (`file://` path or HTTPS download), the
  cache file names, which downloads start, the retry delay, and that only a
  whole body within the size limit is kept.
- `cache`: when the cover cache is pruned, which files a pruning removes,
  and the once-per-path cover dimensions.
- `window`: the applet's state, its answer to each message and player
  reply, and what the panel card and the popup display.
- `path`: cover paths compared by their components, as the standard
  library compares paths.
- `text`: byte-level text helpers shared by the others.

`app/` is the program around it: D-Bus (MPRIS), HTTP downloads, the file
system and the COSMIC widgets.
