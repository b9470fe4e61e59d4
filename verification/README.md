# cluddy

The verified core of Cluddy, a floating desktop assistant for developers.

- `src/` is a Verus library. It holds the assistant's logic with its contracts:
  reading editor window titles and source text (`code_context`), screen
  fingerprints and capture encoding (`screenshot`), the session wiki (`wiki`),
  applying code edits (`file_edit`), the requests sent to the chat service and
  what is kept of its answers, web search results (`web_search`), the memory
  store's addresses (`memory`), the local HTTP interface's checks (`api`), path containment
  (`paths`) and the window and caching decisions (`assistant`). `text` holds
  the string model shared by all of them.
- `app/` is the desktop application around it: Tauri commands, the HTTP
  server, clipboard, screen capture, file system and network calls.
- `tests/` runs the library on concrete values.
