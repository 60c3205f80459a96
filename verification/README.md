# cortexmind

A personal knowledge base fed by coding agents: conversations read from
agent logs, knowledge items extracted from them, a knowledge graph built
from code and documents, keyword search, question parsing and answer
assembly, task records, and the state of agents and their tasks.

The library (`src/`) is verified with Verus: each public function states
what it returns or changes, and the laws that relate several functions
stand as public proof functions (`law_*`). Calls into outside crates
(`chrono`, `uuid`, `regex`, `serde_json`) go through small trusted
wrappers whose contracts say what the crates document.

- `src/agents` — agents, their tasks and priority queue, connectors,
  session logs, knowledge collection, health, monitoring, sync records
- `src/extractor` — knowledge items and projects read out of sessions
- `src/graph` — the knowledge graph: building, statistics, paths,
  cliques, similarity and ranking
- `src/search` — keyword documents, query analysis, result ranking rules
- `src/rag` — question parsing, context building, prompts and replies
- `src/storage` — sync configuration, scheduling and conflicts
- `src/vector`, `src/multimodal`, `src/tasks.rs`, `src/config.rs` —
  search-result positions, file previews and processing results, task
  records, application settings

`app/` is the command-line program around the library: files, the SQLite
databases, HTTP calls to the model and vector services, and everything
that is computed in floating point.
