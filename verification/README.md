# discord-audio-binder

A Windows tool that mirrors a game window into a separate `GameOutput` window
(cropped to the client area and an aspect ratio, optionally tone-mapped from
HDR), relays the game's audio, and plays a web player in the same process, so
that sharing one window in Discord carries the game picture and both sounds.

## Layout

- `src/` is the verified library (Verus). It holds the logic of the program:
  - `geometry`: client area inside the captured frame, aspect-ratio crop and
    its alignment, the crop cache's freshness;
  - `capture_control`: the capture worker's command handling, crop cache,
    kept frames and idle timing;
  - `preview`: down-sampling of captured pixels for the preview;
  - `crop_edit`: the manual-crop edit session and drag decisions;
  - `settings`: reading and writing the settings file;
  - `process_tree`, `window_list`: the process tree and the window list;
  - `relay_control`: the audio relay worker's decisions and output devices;
  - `tidal_control`: the web player worker's navigation;
  - `crash_report`, `text`: the crash log line and text helpers.
- `app/` is the program around it: the egui window, Direct3D capture and
  output, WASAPI audio, the WebView, file access and threads. It calls the
  library for every decision and keeps floating-point work (tone mapping,
  the preview's scale, pointer geometry in the preview) to itself.
- `tests/` runs the library on concrete values.
