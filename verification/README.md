# assets_lens

A browser and exporter for the visual assets of *Baldur's Gate 3*: the `_merged` asset database of
the game's archives is parsed into an index of visuals (GR2 meshes with their materials, textures and
virtual textures), mods are merged over it, and a single asset can be previewed or exported with
everything it binds.

The rules of the app are a Verus-verified library; the shell around it does the I/O.

## Layout

- `src/` — the verified library. Each public function states its result in its contract, and the
  properties that span several calls are stated as proof functions named `law_*`.
  - `naming` — file names of exported artifacts, virtual texture layer names, the GTS of a page file
  - `session`, `building`, `browse` — the index a session holds, its three cached orders, publishing
    a build or a persisted index for the right directory, and the paged browse list
  - `model`, `material`, `texture`, `virtual_textures`, `visual` — the index and the rows a visual
    asset is shown and exported as
  - `mods`, `banks`, `lsx`, `lsf`, `merge` — reading a mod's banks (a binary bank only walked once
    its attribute links point forward) and folding them over the game by GUID
  - `page_files`, `page_sizes`, `staging`, `vt_params` — virtual texture page files: their sizes out
    of the GTS metadata, the files staged for the extractor, and the binding parameter names
  - `export`, `preview` — the export plan, artifact names, the manifest, and the model preview
  - `cache`, `archives`, `paths`, `number`, `text`, `order`, `sort`, `strmap` — the persisted index's
    file name and acceptance check, archive lookups, and the text, ordering and map utilities the
    rest is written with
- `tests/` — tests of the library on concrete values.
- `app/` — the shell: the archive pool, the persisted index and settings on disk, the build, detail,
  preview and export commands, and maclarian's binary-format readers and converters, run where a
  malformed file cannot take the app down.
