# code_assistant

A code assistant that summarizes a project's source files as YAML, embeds
them for vector search, ranks summaries by keywords, keeps chat histories as
trees of messages, and answers questions with an agent that decides, turn by
turn, which files it needs.

## Layout

- `src/` is the verified library (Verus). Each module states its behaviour
  over spec functions on `Seq<char>`, `Seq`, `Map` and the views of its types:
  - `text`: the string operations the rest is written with (trimming, lines,
    splitting, replacing, finding, lexicographic order) and their lemmas;
  - `imports`, `python`, `javascript`, `pattern`: import extraction per language;
  - `yaml_processing`, `yaml_service`, `embedding`, `file_service`, `paths`:
    summary files, ignore patterns, update and embedding decisions, keyword
    ranking, project paths;
  - `chat`: message trees, active branches, query records;
  - `agent`, `agent_flow`, `agent_service`: the agent's context, its states
    and the step taken on each outside result, for the agent that takes
    several architect turns and for the one that takes a single turn;
  - `html`, `template`, `llm`, `services`, `env_settings`, `json`, `sort`,
    `models`: rendering, prompts, settings and shared types.
  Calls into `regex`, `serde_json`, `html_escape`, `uuid`, `chrono` and
  `std::path` stand behind small trusted wrappers whose contracts say what
  is claimed of them. Functions named `law_*` are proved properties that
  relate several operations.
- `tests/` runs the library on concrete values.
- `app/` is the unverified service around it: HTTP routes (actix-web), files
  on disk, Git (git2), the vector store (Qdrant), the language models
  (llm_api_access), and the loops that hand their results to the library.
