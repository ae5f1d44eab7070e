# devin_process

Session-owned supervision of shell processes and an audit log of the tool calls
that start, read, feed and kill them.

The library in `src/` makes the decisions and is verified with Verus:

- `audit`: the bounded audit log; `redact` takes credentials out of error text,
  `canonical`, `json`, `json_text` and `digest` make salted hashes of call arguments.
- `buffer`: a bounded window on an output stream.
- `process`, `monitor`, `supervisor`: a managed process, the watch over its child,
  and the processes of a session; `history` states what holds over a whole session.
- `tool`, `tool_schema`: the process tools and the course of a call.
- `clock`, `config`, `error`, `policy`, `text`: what the others share.

The supervisor, the watch and a tool call are state machines. Each step takes what
happened and gives what is to be done next; whoever drives them starts children,
signals process groups, moves bytes and keeps the time. Properties that relate
several operations are public proof functions whose names begin with `law_`.

`app/` is the driver: real children, pipes, signals and clocks, threads, and the
serialised forms of the library's values.
