# site_plan

Layout of settlements and landmarks on a grid of tiles, with contracts that Verus proves.

A `Site` has an origin in the world, a grid of tiles, plots that the tiles belong to, and lists of
the plots that are plazas and roads. `Site::wf` says what holds of it at all times.

- `geom`, `tile`, `plot`, `site`, `coords`: points, boxes, tiles, plots, and how tiles lie in the
  world.
- `rng`: the stream of random numbers that decides where things go. The calls into `rand` and
  `rand_chacha` are here, and are the only parts that are trusted.
- `obstacles`, `roads`, `plaza`, `search`, `castle`, `bridge`, `names`: one part of the layout each.
- `clear`: buildings that keep out of each other's way.
- `town`: settlements that grow round by round. A `Town` says in its phase what it needs to know
  next and takes the answer.
- `generate`: starting settlements, and landmarks that are a single plot.
- `rules`, `render`: what a site lets happen around it, and what of it shows in a chunk.
- `laws`: what holds across these parts.

Everything that is a fraction (altitudes, directions, odds) or that has to be asked of the world
stays outside of the library, in `app/`, which hands over plain numbers.
