# glassbar

The decisions behind a replacement taskbar for Windows, as a verified library.

- `registry`, `tray_host`: the notify icons that applications register, what the host window does
  with messages, when changes are announced, and how clicks go back to the owner.
- `tray_mirror`: reading the icons out of the shell's own toolbar.
- `notify`: the encoding of clicks.
- `switcher`: the ring of windows and its selection.
- `capture`, `scale`: window thumbnails as PNG data URLs.
- `ram_clear`: the cached-memory purge and its elevated helper.
- `autostart`: the entry that starts the program at login.
- `icon`, `text`, `wire`, `counter`: what these share.

The library makes no system calls. It takes plain values that were read from the system and says
what follows; where system calls and decisions alternate, a step function takes an event and gives
the next action. `app/` makes the calls.

Scaling and PNG encoding come from the image crate and base64 text from the base64 crate. The few
functions that call them, and those of the standard library that are taken on trust, state in
their doc comments what is claimed of them.
