# shader-experiment

An audio-reactive cloud-tunnel visualiser: live or file audio drives a
raymarched cloud scene with bloom, lightning and a "music director", and a
loaded track can be baked offline into an MP4 through ffmpeg.

- `src/` is the Verus-verified library: scene / feel / section modes and
  bake-size presets, the playback transport state, beat-grid and phrase
  indexing, FFT band clamping, the bloom pass schedule and level sizes, the
  analysis sliding window, the seed hash, GPU readback layout and row
  unpacking, the ffmpeg command line and the decimal labels.
- `app/` is the program around it: winit window and event loop, wgpu
  renderer, egui panel, cpal audio I/O, symphonia decoding, rustfft
  analysis and every floating-point computation (camera, director
  envelopes, lightning, palette crossfades, uniform blocks).
- `tests/` runs the library on concrete values.

The WGSL shaders (`clouds.wgsl`, `cube.wgsl`, `post.wgsl`,
`composite.wgsl`) are read at start-up from a `shaders/` directory in the
working directory.
