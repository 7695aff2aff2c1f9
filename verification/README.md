# swarm

Keeps repositories, the workspaces that are checked out of them, and the sessions
that run in the workspaces.

- `src/` is the verified library. What an operation does is a state and a function
  from a state and a reply to the next step: the library decides, and whoever runs
  it performs what it asks for and hands back what came of it. Each public function
  states its result over views of its arguments, and the `law_*` functions state
  what holds across operations.
- `app/` is what runs the library: the command line, the server of a session, the
  databases, and the window.
- `tests/` are tests of the library.
