# ocw_labs

Exercises of an introductory course on software engineering, and two small
tools built beside them, as a verified Rust library: every function in
`src/` carries a contract that Verus proves.

- `state_machine`, `basic`: state machines (ABC, UpDown, Delay, Accumulator,
  Gain, Increment, a parking gate, ...) and their compositions (cascade,
  fork, parallel, feedback, feedback with a second input), with a transducer that runs a machine over a
  sequence of inputs. `number` holds the integer arithmetic they share.
- `fibo`, `fibonacci`, `fibonacci_enum`: Fibonacci numbers by several
  methods, each proved to give the same number.
- `additionals`: palindromes, fragments and tags read grapheme by grapheme,
  a fruit salad and a warehouse stock.
- `config`, `options`, `chunk_index`, `bigxml`, `payload`, `broker`: the diff of two big
  XML files: settings and the command line, cutting the files into chunks, chunk ids and
  checksums, the sorted index of chunks, the diff of two indexes, and the
  bookkeeping of the process that hands chunks to workers.
- `string_service`: upper-casing and counting strings for a JSON-RPC service.
- `time_series`: a series of metrics with one entry per time unit in a
  circular buffer: pushing, filling silent time units, discarding outdated
  data, and reading the entries in use.
- `text`, `lex`, `seqs`: text helpers and lemmas on sequences.

`app/` holds the programs around the library (console input, the ZeroMQ
broker and workers, command-line options, JSON-RPC) and what works in
floating point (closed forms of the Fibonacci numbers, vectors,
polynomials). `tests/` runs the library on concrete values.
