# appscreener-pattern-sync

Keeps the pattern set of an existing Solar appScreener custom rule equal to a
local directory of XML pattern files, and creates the directory skeleton of a
new rule.

The library under `src/` holds the decisions and is verified with Verus:

- `text`: string helpers with their specifications (trimming, searching,
  decimal numbers, joining);
- `dto`: the pattern records exchanged with the server;
- `config`: the manifest (`patterns.yaml`), its entries kept in key order:
  merging defaults, resolving the settings of a file (type, severity and
  confidence required), the manifest checks;
- `xml`: normal form and SHA-256 hash of pattern text, the well-formedness
  check of a fragment (through `quick-xml`);
- `local`: choosing the pattern files of a directory listing, in file-name
  order, and loading them into patterns;
- `sync::planner`: the plan (create, update, skip, delete) and its laws;
- `sync::model`: the plan, its counts and its printed form;
- `sync::executor`: applying a plan, as a state machine that asks for one
  request at a time and checks the server before deleting and at the end;
- `api`: the base URL, the endpoints, and how error responses are described;
- `scaffold`: checks and layout of a new rule directory, its templates, and
  the allocation of the staging directory it is generated in;
- `logging`: the default log filter.

`app/` is the command-line program around it: argument parsing, reading the
directory and the manifest, the HTTP client, snapshots, writing a new rule
directory to disk.
