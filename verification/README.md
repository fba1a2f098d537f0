# rtgc_siberian_cities

The integer, string and collection logic of a truck-driving game engine set in
Siberian cities, written in Verus with its contracts proved.

`src/` is the verified library:

- `arena_allocator` — generational arena with a free list; stale handles are rejected.
- `ecs` — entity table with generations and reuse, archetypes, typed component storage.
- `mission_system` — missions, objectives, rewards and the mission manager.
- `save_system` — save-file names: building a slot's path, reading slots back from file names.
- `terrain_generator` — surface kinds and the Perlin permutation table.
- `menu` — menu screens, what each key does on each screen, the city selector.
- `hud` — gear indicator, HUD layout, which warning blinks.
- `input` — input actions, gamepad buttons and axes, and the default gamepad layout.
- `rhi`, `opengl` — resource descriptions and the OpenGL device.
- `audio` — sound handles and the list of playing sounds.
- `spatial_hash` — broad-phase collision buckets by grid cell.

`app/` is the program around it: files and JSON, the float parts (noise values,
friction, attenuation, blink timers), typed components, the render-device
traits. `tests/` runs the library on concrete values.
