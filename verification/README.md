# drill_above

The rules of a 2D platformer in which the player drills through the ground,
and the bookkeeping of its room and level editors, written in Verus with
contracts that the verifier proves.

Coordinates are fixed point: a world unit is `COORD_ONE` (16000) steps, a pixel
1000; times are microseconds.

## Layout

- `src/` is the verified library.
  - `geom`, `grid`, `collider`: vectors, boxes, the cell grid and collisions
    between boxes.
  - `tileset`, `tilemap`, `tile_plan`, `rules`, `assets`: tile maps, how tiles
    join their neighbours, which tile image each cell gets and how a map is
    drawn; `light`: the tile edges at which light stops.
  - `room`, `placeable`, `removal`: rooms and what can be placed in them.
  - `player`, `movement`, `logic`, `dialogue`, `text_scroller`: the player, how
    actors move and collide, and the separate steps of a frame of play
    (sensors, jumps, the drill, bounds, coins and hazards); `game`: the
    keys and fade of a running game; `intro`: the cutscene's clock.
  - `editor`, `room_edit`, `level`, `level_edit`, `layout`, `loading`,
    `text_input`: the room and level editors.
  - `laws`: properties that relate operations to each other.
  - `util`: reading sizes, splitting times and reporting errors.
- `tests/` runs the library on concrete cases.
- `app/` holds the command-line tools that read and write the game's files.
