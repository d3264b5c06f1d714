# frigate_zmq_detector

Sidecar for Frigate's `type: zmq` detector: it receives inference requests on a ZMQ REP socket,
runs a TensorFlow Lite model (with the Mesa Teflon delegate) and returns detections as a
`(20, 6)` float32 table. The library is written and proved in Verus.

## Layout

- `src/` is the library. Its rules are stated in `requires` / `ensures` contracts and proved.
  - `protocol`, `json`, `message`: which messages there are and how each is answered
  - `tflite`, `backend`: the life of a model and its interpreter
  - `detection`, `binary32`: from the output tensors of an SSD model to the detection buffer
  - `watchdog`, `process_watchdog`, `supervisor`: when the worker exits, is aborted, is restarted
  - `server`, `stats`, `clock`: the steps of the reply loop, and its statistics
  - `cli`, `error`, `text`: settings, errors, text helpers
- `app/` is the program around it: arguments, sockets, threads, processes and logging.
- `tests/` runs the library.

What is believed without proof are the contracts of the small functions that call `zeromq`,
`serde_json`, `edgefirst_tflite` and the clock of the standard library. Each names the call it
makes and says what it claims of it.

## Message frames

| Message | Frame 1 | Frame 2 |
|---|---|---|
| Model availability | `{"model_request": true}` | none |
| Model transfer | `{"model_data": true, "model_name": "..."}` | `.tflite` bytes |
| Inference request | `{"shape":[...], "dtype":"uint8"}` | uint8 tensor bytes |
| Inference reply | `{"dtype":"float32","shape":[20,6]}` | 480 bytes, float32 LE |
