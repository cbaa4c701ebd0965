# deep_forge

The engine of a real-time face-swap server, with its decisions proved in Verus.

`src/` is the verified library:

- `frame` — BGR frames, cropping, and the layout conversions to and from the
  interleaved and planar RGB buffers that codecs and models exchange, with
  their round-trip laws.
- `tracker` — the detection tracker that reuses cached faces between full
  detections, and the law that detection recurs every `interval` frames.
- `detect` — the feature-pyramid anchor grid and greedy non-maximum
  suppression over an overlap relation, with its laws.
- `provider` — execution-provider selection, session plans and model-file
  variants.
- `codec` — decoding and encoding through the `image` and `base64` crates,
  and the thumbnail pipeline.
- `profiles` — profile fields, photo slots, the listing order and the
  embedding file format.
- `manifest`, `capture`, `server`, `stream`, `shell`, `api`, `text` — the
  model manifest, the synthetic camera, request decisions of the HTTP
  server, the WebSocket loop decisions, launcher helpers, error values and
  text rendering.

`app/` is the server program around it: command line and environment, ONNX
Runtime sessions and the floating-point image work, file storage, and the
axum routes and socket loops.
