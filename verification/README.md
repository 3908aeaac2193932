# atlas_mcp

The verified core of an MCP server for code analysis, written in Verus. What the
server decides is in functions with contracts: what a request asks for, what is
answered, which form a client is asked to fill in, how a background query is
followed, and what is kept between requests.

## Layout

- `src/` is the library.
  - `text`, `text_map`, `json`, `json_text`, `digest`: texts, maps, JSON values and
    digests.
  - `protocol`, `protocol_version`, `errors`, `forms`, `responses`: what goes over the
    wire.
  - `adapter`, `overlay`, `project_path`, `explore_candidates`: how a tool request is
    prepared, and when more input is needed first.
  - `query_task`, `task_manager`: queries and operations that run in the background.
  - `tools/`: one module for each tool, and for what tools share.
- `tests/` holds tests on concrete values.
- `app/` is ordinary Rust around the library: the MCP transport, threads, clocks,
  floating-point scores, and the traits through which the analysis engine supplies
  facts.

## Reading the contracts

Contracts speak of views: a text is a `Seq<char>`, a JSON value a `JsonView`, an
object a `Map`. Proof functions whose names start with `law_` state what holds of the
library as a whole. Functions marked `external_body` call other crates; their doc
comments say what is taken on trust.
