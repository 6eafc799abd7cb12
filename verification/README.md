# exemu-os

The operating-system layer of a Windows process that runs under an interpreter: it
binds imports to thunks, serves the calls of the guest, and keeps what belongs to the
process (memory, threads, objects, registry, windows, files, libraries).

Everything in `src/` is verified with Verus. Each service is a function from the
registers, the memory and the state before a call to those after it; the contract of a
service is stated over that function.

## Layout

* `mem`, `cpu`, `call`, `gstr`, `text`, `util`: guest memory, registers, arguments and
  texts.
* `api`, `named`, `thunk`, `dispatch`, `serve`, `bound`: symbols, thunks, and how a
  call is served.
* `crt`, `console`, `files`, `dialogs`, `windows`, `process`, `clock`: the services
  themselves.
* `os`, `config`, `env`, `heap`, `vm`, `time`: the state of the process.
* `thread`, `sched`, `sync`, `kobj`, `msg`: threads, what they wait for, and their
  messages.
* `hive`, `reg`, `names`, `fs`, `path`, `search`: the registry and the file system.
* `gdi`, `win`, `ui`, `cb`: windows, drawing, and calls into the guest.
* `ldr`, `loader`, `plugin`, `order`, `wine`, `apiset`, `contracts`, `boot`, `exc`: images,
  loader lists, contracts, start-up and exceptions.
* `syscall`, `ssdt`, `ntreg`, `ntvm`, `nls`, `section`, `server`, `unix`, `unixlib`:
  NT calls.
* `host`: what the layer asks of its host, and what the host answers.

`app/` performs what `host` describes (files, windows, image parsing) and drives the
layer. `tests/` runs the library on concrete values.
