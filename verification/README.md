# recorder

The verified core of a screen recorder that captures BGRA frames, converts
them to YUV 4:2:0, encodes them with OpenH264 and writes H.264 in MP4.

- `src/avcc.rs`: Annex B to AVCC conversion of H.264 bitstreams, with the
  laws of the split and of the length-prefixed framing.
- `src/yuv.rs`: the YUV 4:2:0 frame buffer and its BGRA conversion.
- `src/pipeline/`: captured and encoded frames, the frame checks of the
  capturer, the encoder around OpenH264, and the MP4 writer's per-frame
  decisions.
- `src/utils.rs`: guessing the framing of an H.264 buffer.
- `app/`: the program: capture, encoder and writer threads, file output.
- `tests/`: tests of the library.
