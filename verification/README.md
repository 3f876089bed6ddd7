# gflick

The logic of the GFlick mouse tools, verified with Verus: the background agent's
decisions, the stored preferences, the settings form and its write plans, the
command-line client's parsing, requests and output, the hardware probe's argument
parsing and its report of a mouse, the benchmark's rules and sampling
schedule, and the agent's start-up registration.

- `src/` is the verified library. Its functions carry contracts that Verus
  proves, except two small wrappers around std (`String::push` and
  `String::from_utf8`) whose contracts are trusted; the laws that relate
  several functions are public proof functions named `law_*`. Functions that
  talk to the agent send through a `Transport`, which records each request
  so that their contracts can state exactly what is sent.
- `tests/` runs the library on concrete values.
- `app/` is the thin program around it: the settings file on disk, the
  registration with launchd or the Windows registry, the settings
  application's login items, and the socket I/O.
