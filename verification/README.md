# audio_rust

Small audio programs (ALSA, cpal and JACK demos) split in two:

- `src/` is the verified library: the sample clock behind a sine oscillator
  (`clock`), the ring-buffer delay line of an echo effect (`delay`), the
  multi-tap echo planner that plays back a recorded take (`echo`), the
  dual-mono stereo interleaving of a period buffer (`stereo`) and the
  keep-running decision of a realtime callback (`control`).
- `app/` opens the devices, does the floating-point work (oscillators,
  noise, wet/dry mixing) and calls the library for everything else.
  Run it as `audio_rust <demo>`, with one of `alsa-sine`, `alsa-check`,
  `cpal-sine`, `cpal-echo`, `jack-sine`, `jack-noise`, `jack-echo`.
