# omni

A realtime transcription tool for the command line: a daemon that records and streams audio to a
server that speaks the OpenAI Realtime protocol, commands that drive it, hooks that run when a
transcription starts or stops, and a small user interface that follows it.

The library in `src/` holds the rules of the tool. Its functions are verified by Verus, except for a
few small wrappers around functions of other crates, of which more below:

- `text`, `fields`, `error`: text, lists of named values, and errors.
- `json`, `config`, `commands`: JSON values, the configuration and the commands on it.
- `cli`: the grammar of the command line.
- `backend`, `transcript`, `progress`, `realtime`: the messages to and from the server, the
  transcript that its events make up, what is noted on the way, and the worker that drives it.
- `recording`, `input`: captured audio and input devices.
- `daemon`, `client`, `process`: the daemon, the commands that talk to it, and other processes.
- `hooks`, `clipboard`: what hooks do, and the clipboard over a run of them.
- `doctor`: health checks.
- `ui_ipc`, `ui_client`, `ui_tail`: events for the user interface, the interface itself, and a
  viewer of the events.

Where something has to be done outside (a file, a socket, a process, the clock), a function of the
library says what, and takes in what came of it. `app/` does it. `app/` also holds what is
floating-point arithmetic, such as audio levels and animation.

Functions of other crates that the library calls stand behind small wrappers marked as trusted; the
comment above each names the function and says what is taken to hold of it.

`tests/` holds the tests of the library.
