# squeeze

Compresses gameplay captures to an H.264 MP4 that fits under a byte ceiling
(Discord's upload limit by default), re-encoding at a lower bitrate until it
fits.

- `src/` is the verified library (Verus): the planning arithmetic (`plan`), the
  reduction of probed stream facts to what the planner needs (`probe`), the
  per-pass encoder decisions, filter-graph text and packet routing (`encode`),
  the measure-then-re-encode session (`compress`), and the command line
  (`cli`). It holds no floating point and makes no FFmpeg call.
- `app/` is the program around it: FFmpeg work through `rsmpeg`, file and
  console I/O, and the floating-point byte-budget estimates, which hand the
  library rounded raw bitrates.
- `tests/` runs the library on concrete clips, plans and command lines.
