# kaku_tools

The logic of the tools that a terminal's assistant calls, verified with Verus.

| module | what it decides |
| --- | --- |
| `process` | which executables run in a tree of processes, or in one group of it |
| `pattern`, `command` | the regular expressions and command lines of a code search |
| `watch` | how long a search program is waited for |
| `symbol_search`, `grep_search` | what is told of a search program's answer |
| `web_search`, `brave`, `pipellm`, `tavily`, `web` | the requests of a web search, and what is told of the replies |
| `json` | JSON as plain data |
| `soul` | what is told of the files that say who the assistant is |
| `spill` | what is shown of a long result, and which files hold the rest |
| `path`, `text`, `error` | file paths as bytes, text as characters, what a failure says |

`src/` is verified but for its calls of outside code. They are made in three functions that Verus
does not read, each beside the contract it is trusted with: `text::lossy`
(`String::from_utf8_lossy`), `json::value_from_slice` (`serde_json::from_slice`) and
`json::open_value` (the variants of `serde_json::Value`). `text` also states what `String::push`
does.

Paths are those of a Unix system. `app/` runs the tools: it reads and writes the files, starts the
search programs, and sends the requests through what the surrounding program provides.
