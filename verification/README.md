# xi_tinkerer

A verified library for decoding, encoding and auditing FFXI DAT files, with a
small command-line front end.

`src/` is checked by Verus. Every public function states what it returns in
its contract, and the laws that tie functions together are proof functions:

- `formats/` — the DAT codecs (item tables, entity names, string tables,
  dialogs, status info tables), each with a round-trip law.
- `dat_path`, `logical_paths`, `rom_tables` — where a DAT lives: the client's
  file tables, logical paths and the path parser, which reads a package file's
  path back to its DAT path.
- `id_mapping`, `dat_descriptor`, `dat_files`, `yaml_paths` — which table ID
  each editable resource uses and where its YAML file lies; a YAML file leads
  back to its DAT, and each DAT has one YAML file.
- `audit`, `format_detect`, `messages` — format detection, byte-exact round
  trips and audit summaries, and error messages that name no client path.
- `xbox`, `xbox_accounting` — the Xbox package layout: which package file the
  client mounts for each mapped DAT, and an accounting in which every package
  file is reported once.
- `exports/` — merging the language tables of the item and key-item exports,
  the dialog DAT of every zone slot for the zone text catalogue, the DATs of
  the client-wide area-name, title and status-name tables, the record of each
  language source of a client resource, and the collision-mesh serialisation
  (distinct vertices in key order, triangles as indexes into them).

`app/` reads the client's files from disk, calls the library and writes the
JSON reports; it holds no logic of its own.
