# trippy_ants

The verified core of a pheromone-trail ant simulation ("Trippy Ants"): ants roam a grid,
leave pheromones on it, and steer by what they sense; the grid blurs and decays every step
and is shown through a colour palette.

- `src/` is the library, verified with Verus:
  - `config.rs`: grid topology, world configuration, and the bookkeeping that decides when the
    configuration file is read again;
  - `grid.rs`: the grid of cells, topology-aware coordinate mapping and the 3x3 blur stencil;
  - `simulation.rs`: the double-buffered simulation state: blur, deposits of the agents,
    walls held at a value, buffer swaps;
  - `palette.rs`: colour packing and the lookup tables;
  - `frame.rs`: filling an RGBA frame buffer and extracting RGB bytes for screenshots;
  - `agent.rs`: what an ant does when it hits a wall, and its seeds;
  - `runner.rs`: sharing agents among workers, resizing the population, step history,
    timings, frame deadlines and window input.
- `app/` is the program around it: window, rendering, files, threads and all floating-point
  arithmetic (cell values, positions, colour curves), which the library takes as generic cell
  types and closures.
- `tests/` exercises the library on concrete values.
