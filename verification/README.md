# organoids

The interface and bookkeeping logic of the Organoids ecosystem viewer, written
in Verus and proved against its contracts.

- `src/` is the verified library:
  - `ui_state`: pause, speed, passport, ledger and journal state, keyboard
    shortcuts, world and row clicks;
  - `ledger`: the species ledger (card order, change counts, revision, the
    virtualised card range, random cell choice);
  - `chronicle`, `census`, `event_list`, `tooltips`: the bounded event and
    snapshot logs, event filters, the census that turns world samples into
    chronicle notes, the event list text and the tooltip texts;
  - `journal`: genus figures, population texts and row looks of the species
    journal and ledger;
  - `menu`: launch presets, clamping, seeds, section folding, text field
    editing and number parsing;
  - `taxonomy`: word lists and species names;
  - `audio`, `wakes`, `highlight`, `image_cache`: sound scheduling, wake
    emitters and patches, the species area outline, the cache of species
    images;
  - `mesh`, `raster`, `text`, `genes`: index buffers, pixel and mask helpers,
    decimal text, gene panel tables;
  - `chance`: the two calls into `rand`.
- `app/main.rs` is a small command-line front end with the floating point
  pixel and camera arithmetic and the file reading.
- `tests/` exercises the library on concrete values.
