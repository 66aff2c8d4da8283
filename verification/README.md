# gosh-agent

An agent that takes tasks from a memory server, lets a model or a coding CLI do them, has the
results reviewed, and writes what came out back to memory. It also captures what coding CLIs are
asked and answer, and serves MCP clients over OAuth.

`src/` is the library: the state machines of a run, the facts and prompts, the providers'
requests and answers, the OAuth stores, the files and settings of an instance. All of it is
verified with Verus, against contracts that say what each function returns and changes.

- `agent/` — a task from its reference to its written result
- `llm/` — chat requests, API providers, coding CLIs
- `client/`, `courier`, `sandbox`, `serve` — memory, events, file access, the daemon's settings
- `oauth/` — sessions, clients, tokens
- `plugin/` — setup, capture, transcripts, the MCP proxy
- `crypto`, `codec`, `json`, `text`, `chance`, `join`, `auth`, `keychain`, `strmap`, `paths`,
  `names` — what the rest is built from

`app/` is the program around the library: arguments, files, sockets, processes, and the money
sums that need floating point.

## Running it

- `GOSH_ANTHROPIC_CLI` names Anthropic's coding CLI, where the host uses it: the command, the
  directory of its settings and the prefix of the models' names follow from it.
- The prompts of attempts and reviews come with the library. `review_repair.txt` is read from
  `src/agent/prompts/` in the working directory, in a directory above it, or beside the program.
