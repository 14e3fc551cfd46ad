# sculkr

Lists the mods of a packwiz modpack, with their titles, links and
descriptions as Modrinth and CurseForge report them, and keeps a cache of
what was fetched so that a second run asks the services nothing.

## Layout

- `src/` is the verified library (Verus). It holds the pack and index
  models, the packwiz metafile reader, the mod cache and its invariant, the
  decisions of a run (what to fetch, what came back, what is missing), the
  ordering of the listed mods, the export document, the environment and
  secret handling, and the texts of the command line. Every public function
  carries a contract, and the laws that relate functions stand as public
  proof functions beside them.
- `app/` is the program around it: argument parsing, reading and writing
  files, the HTTP requests, logging and coloured output.
- `tests/` runs the library on concrete values.
