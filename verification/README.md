# redixel

The core of the Redixel game engine, verified with Verus.

`src/` is the verified library. Each module states its behaviour in
`requires`/`ensures` contracts over mathematical views, and the properties
that span several calls stand as public `law_*` proof functions.

| module     | what it holds |
|------------|---------------|
| `audio`    | sound handles, audio channels, clip decode states |
| `registry` | the per-handle decode registry every audio backend shares |
| `pending`  | plays waiting on a clip still decoding: age limit, cap, music replacement |
| `playback` | where each play goes (start, wait, drop) given the registry |
| `voices`   | the mixer's voice policy: the sound-effect cap and the music crossfade |
| `clock`    | the fixed-step accumulator and the window of recent frame times, in nanoseconds |
| `frame`    | the order of one frame and how each stage can end it |
| `batch`    | CPU-side geometry batching into texture runs, and buffer growth |
| `texture`  | texture handles, the missing-texture checkerboard, image decoding, texture slots |
| `context`  | per-frame requests a game makes: handles, loads, draw and audio commands, surface and fullscreen |
| `settings` | the dot-path settings tree |
| `runtime`  | backend and present-mode codes, surface outcomes, the app lifecycle |
| `error`    | the engine's error values |

`app/` is ordinary Rust around the library: floating-point volumes and fades,
clip decoding with `symphonia`, the sample mixer, the frame clock in seconds,
and reading and writing `config.json`.

`tests/` runs the library on concrete values.
