# retype

A global keyboard remapper for Linux, with its decisions verified by Verus.

- caps with i, j, k, l is up, left, down, right; caps with h and ; is home and end
- super with caps, and nothing else, toggles caps lock
- caps with a number, then a key: repeats that key, up to 65535 times
- caps with f or d, then a character: moves forwards or backwards to that character, and with
  shift selects up to it; a character right next to the cursor does not count
- caps with f1 stops the program

## Layout

`src/` is the library. It opens no device and waits for nothing: it takes key events and returns
the actions to perform.

- `handler`: the remapper, from one key event to the next state and what to do
- `laws`: what holds of it over any events, such as that no key is ever stuck
- `search`, `find`: where a character is, and how to get the cursor there
- `map`, `keys`, `modifiers`, `num`: what keys mean, and numbers that are typed
- `send`, `caps`, `tray`: key strokes, hotkeys that act when let go of, the tray icon
- `event`, `devices`: raw events, and which devices are keyboards
- `action`: what can be asked for, and what it does to the virtual keyboard

`app/` is the program around it: devices, clipboard, and, built with `--cfg desktop`, a front end
for X11.
