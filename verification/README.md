# tim

A countdown timer for the desktop. The library (`src/`) holds what the timer
decides, with its contracts proved by Verus: the `mm:ss` text of a countdown,
the window's colours and alarm, the start/pause/resume button, the set button's
layout, the keyboard shortcuts and the limits they keep, the countdown's ticks,
and where the alarm sound lies and how it is played. `app/` holds the window,
the threads and the sound output around it.
