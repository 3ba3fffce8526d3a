# webfetch2

An MCP server with one tool, `fetch`: it downloads a URL into `.tempwebfetch/`
and answers with the relative path of the file, its size and its content type.
After a download it also looks for the `llms.txt` at the root of the URL's
host, stores it beside the page when there is one, and says where.

- `src/` is the verified library: the stored file names of a URL (the
  library's hashed names in `filename`, the server's names made from the URL
  in `safename`), the numerals in messages (`text`), HTTP status handling
  (`status`), the errors a call answers with (`error`), the fetch as a
  sequence of steps, each a decision on the outcome of the previous outside
  action (`fetch`), and the laws that hold of all of them (`laws`). The
  library's tool (`WebFetch::fetch`) can answer from a stored file; the
  server's tool (`WebFetch::fetch_for_server`) names files after the URL and
  gives advice in its error messages.
- `app/main.rs` is the server: it speaks MCP over stdio and performs the
  file-system and network actions that the library's steps ask for.
