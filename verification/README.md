# ps2_suitcase

Verified building blocks for PlayStation 2 save archives, checked with Verus.

The library (`src/`) holds the formats and the rules; every function there
carries a contract that Verus proves:

- `psu`, `bytes`, `packing`, `packer`: PSU archives, their entries and bytes,
  the selection of files to pack, the `psu.toml` model and the generated
  icon.sys.
- `icn`, `icon_sys`, `icon_title`, `sjis`, `title_cfg`, `color`, `bin`:
  the ICN icon format, icon.sys metadata, Shift-JIS titles and `title.cfg`.
- `memcard`, `mcd`: reading memory-card images.
- `timestamp_rules`: the SAS timestamp rules (categories, aliases, spacing).
- `project`, `summary`, `icon_presets`, `title_cfg_form`, `viewer`,
  `builder_state`, `shortcut`: the decisions of the editors: how a project
  folder maps to a configuration, how timestamps are chosen, what the forms
  show, and the messages they give.

Laws that span several functions are stated as public proof functions named
`lemma_*` next to the functions they speak of.

`tests/` exercises the library on concrete values. `app/` is the
command-line packer: argument handling, file I/O, TOML (de)serialisation,
clock access and the floating-point parts that Verus does not take.
