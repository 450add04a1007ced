# Bits & Blocks

A voxel sandbox for building logic circuits: place wires, gates, switches,
buttons, lights and clocks on a grid, and watch signals travel along the
wires as the simulation ticks.

The game's rules live in a library verified with Verus (`src/`); a Bevy
program (`app/`) draws the world, reads the keyboard and mouse, plays the
frames and reads and writes the save files.

## Library (`src/`)

- `bits` — the 16-channel signal word of a voxel.
- `voxel` — voxel kinds, their `(group, index)` numbering, grid positions.
- `world` — the voxel world: placed voxels, the entity that shows each, and
  the drawing data of each kind.
- `logic` — gate simulation and the application of signal updates.
- `wires` — signal propagation along connected wires, channel by channel.
- `settle` — once propagation is applied, propagating again changes nothing.
- `cables` — which neighbours a cable links to, and which cables to redraw.
- `mesh` — block and cable meshes, in integer mesh units.
- `game` — game states, windows, requests, the player and the simulation speed.
- `input` — the decisions taken on one frame of player input.
- `menu` — menu buttons, window visibility, hotbar and inventory display.
- `session` — the state the game's requests act on, and what each request
  leaves for the game loop to do.
- `saves` — world names, save file names and saved worlds.
- `text` — decimal writing.
- `ui_layout` — the interface trees of the game and of the main menu.

## Program (`app/`)

Bevy systems that feed the library with input and carry out the work it
hands back: spawning and removing entities, building meshes, moving the
cursor, saving and loading worlds.

## Tests (`tests/`)

Scenarios for each module, run against the compiled library.
