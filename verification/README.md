# codex_remote

The verified core of a remote workspace for coding agents: threads, goals, memories and jobs that
live in a database, a proxy that lets a model go on thinking, and the dialect of chat providers.

`src/` holds what is decided and computed. Every function there states what it returns or changes,
and Verus proves it. What holds of several functions together stands in `src/` as public proof
functions, at the end of each module.

`app/` holds what reads and sends: the database, HTTP, files and clocks. It hands plain values to
the library and performs what the library decides.

| modules | what they are about |
| --- | --- |
| `text`, `json`, `time`, `thread_id`, `sql` | the values that everything else is written with |
| `sse`, `continue_thinking`, `fold` | streams of events, and folding several rounds into one |
| `protocol`, `chat_request`, `chat_stream`, `models` | chat providers |
| `thread_store`, `thread_records`, `thread_document`, `thread_list`, `thread_pages`, `thread_search`, `store_error` | threads in a database |
| `goals`, `goal_requests`, `goal_flow` | the goals of threads |
| `memories`, `memory_outputs`, `startup_claims` | memories made of threads |
| `agent_jobs` | jobs with many items |
| `migrations`, `search_budget`, `redaction`, `version` | migrations, limits of searches, what clients are not sent, versions |

Where the library calls another crate, or a part of the standard library that has no
specification, the call stands in one small function whose contract is believed. The comment above
it names the function that is called and says what is believed of it.
