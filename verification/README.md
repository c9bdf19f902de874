# rustray

A ray tracer whose integer, text and decision logic is a library proved
with Verus, and whose floating-point shading and file and thread handling
sit in a small program around it.

## Layout

- `src/` — the verified library:
  - `args` reads the command line (scene files, `cmd`, `no-animation`,
    `WxH`, `samples=`, `monte_carlo=`, `start=`);
  - `window` keeps the window position and size and the text file that
    stores them, with a proof that reading back what was written restores
    it;
  - `renderer` splits an image into cells for the workers, with proofs that
    a pass renders every pixel exactly once whatever order the cells come
    in;
  - `sampling` places the sub-pixel samples and wraps texture coordinates;
  - `frame_control` decides, turn by turn, when a frame is complete, when
    the next animation frame starts and when rendering stops;
  - `animation`, `scene`, `material`, `config`, `mesh`, `post_processing`,
    `output` hold the keyframe lookup, the item register, texture slots and
    switches, settings, triangle topology, texel lookups and output names;
  - `text` holds the character-level helpers (splitting, prefix tests,
    reading and writing integers the way `str::parse` and `{}` do);
  - `learning`, `summary`, `helper` hold small exercises and helpers.
- `tests/` — tests of the library on concrete values.
- `app/` — the command-line program: argument and file handling, worker
  threads, the floating-point tracer (spheres and meshes through parry3d),
  JSON and Wavefront scene loading, and image output.
