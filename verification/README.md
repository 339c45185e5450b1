# pumpkin_world

The level of a voxel world, with its behaviour stated in contracts that Verus
proves.

- `src/` is the library: who watches which chunk (`watch`), what leaves memory
  and what is saved first (`memory`, `cleaning`), entity chunks (`entity`), calls for chunks
  that are not in memory (`fetch`), ticks (`tick`), shutting down (`shutdown`),
  blocks and biomes (`blocks`), folders (`folder`), threads (`threads`),
  coordinates (`math`), and the state itself (`level`). `chunk_map` holds the
  maps of the `dashmap` crate and what is believed of them.
- `app/` runs a level: tasks, threads, locks and files. The library keeps
  handles in place of data that several tasks share; `app/` keeps that data.
- `tests/` runs the library on given values.

A function named `law_..` states something that holds of several calls together.
