# nucleus

A small content management tool: `nucleus init <name>` scaffolds a project,
`nucleus dev` serves it, proxying the front end to the framework's
development server.

- `src/` is the library, verified with Verus: the project layout and
  configuration model (`project`), server assembly and TLS checks
  (`server`), the development proxy's decisions and the WebSocket accept
  key (`server::proxy`), start-up decisions (`server::bootstrap`), the
  `init` and `dev` commands' decisions (`commands`), the Next.js
  configuration patch (`frameworks::next`), and the text and path
  operations these rest on (`text`, and `path`, which treats paths as the
  bytes the operating system stores).
- `app/` is the program around it: command line, file system, processes,
  HTTP serving and proxying.
- `tests/` runs the library on concrete values.
