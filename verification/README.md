# process-pool

A pool of long-lived worker processes, modelled on a thread pool executor: core and maximum
size, a bounded queue, a keep-alive time, and four rejection policies. Workers speak one line of
JSON per request and per response on their standard input and output. A service offers the pool
over HTTP and JSON-RPC, and can run conversation processes beside it.

The library in `src/` is verified with Verus. It performs no I/O: the pool, the attendant of a
worker, a conversation and the service are machines that say what is to be done and take reports
of what came of it.

| module | what it holds |
| --- | --- |
| `text`, `table`, `json`, `reading` | texts, ordered maps, JSON documents and their text |
| `config`, `error` | the seven parameters and the errors |
| `protocol`, `runner` | the exchange with a worker, and the attendant of one worker |
| `workers`, `schedule`, `pool`, `laws` | the table of workers, the scheduling rules, the pool, and what holds of it over its whole life |
| `lines`, `agent`, `session`, `tools`, `agents`, `errands` | conversation processes |
| `server` | the service: who may call, what a call means, what is answered |
| `echo` | the example worker |

`app/` is the program around the library: the HTTP server, the processes and the pipes.
