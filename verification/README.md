# pop3

Game logic for a Populous: The Beginning engine, written in Verus: every
function of the library carries a contract that Verus proves.

- `src/data` reads the game's data files from bytes: unit and tribe records,
  level files (landscape, tribes, sunlight, unit slots) and tables, language
  strings, the 8x8 font, the shared level-special file, 3D object banks with
  their triangle meshes, building footprints, and the animation tables, with
  sprite compositing and the sprite atlases built from them.
- `src/engine` holds the simulation rules: movement (tiles, regions, the
  wall-following pathfinder, routes and waypoints), object handles and the
  cell grid, buildings (life cycle, occupants, damage, combat, placement,
  spawning, training, the footprint catalog), combat, economy (mana,
  population, wood) and visual effects.
- `tests` runs the library on concrete values.
- `app` finds and reads the data files under a game-data root and hands
  their bytes to the library.
