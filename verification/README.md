# Segmented Encoder

A tool to transcode video on several computers in parallel: a server keeps
jobs and their tasks, workers ask it for tasks, run the encoder (`ffmpeg`) on
them and upload what it writes.

The library in `src/` holds the logic of the server and of the workers, with
its behaviour stated in Verus contracts and proved:

- `job_db`, `manager`: jobs and tasks, tasks that wait on others, their
  allocation to workers and their outputs;
- `api`: what each request of the HTTP API does and the status code that
  answers it; `models`: the messages of that API;
- `jobs`, `scheduler`, `job_scheduler`, `job_manager`: jobs cut into
  segments and the scheduling of those segments;
- `clients`, `auth`, `headers`: workers and their credentials, tokens,
  header values;
- `command`, `runner`, `progress`, `paths`: the encoder's command lines, the
  URLs of inputs and outputs, and the progress the encoder reports;
- `timed_map`, `weak_map`, `status`, `storage`, `static_files`, `echo`,
  `ids`: supporting pieces.

`app/` holds what runs around the library: the HTTP server (run with
`--password` and `--cors-origin`), the worker (run as `worker --server URL
--password P`: it logs in, takes a task, runs it and uploads its output),
the first HTTP layer of the server (run as `legacy`), the process that
runs the encoder, and the conversion of messages to and
from JSON.
