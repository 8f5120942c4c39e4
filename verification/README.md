# rt

A ray tracer that renders spheres, planes, cubes and cylinders to ASCII P3 PPM
images, with optional reflection, refraction and textures.

- `src/` is the verified library (Verus):
  - `cli.rs`: command-line arguments (`--scene`, `--width` / `-w`, `--height` / `-h`,
    `--output`, `-r`, `-R`, `-t`, `--max-depth`, `--help`) and the tracing
    options they select;
  - `tracer.rs`: `TraceOptions`, the switches and depth bound for bounces,
    and the per-hit bounce decision;
  - `ppm.rs`: the P3 writer, as bytes;
  - `texture.rs`: the P3 reader (comments, whitespace, header, clamped
    samples), nearest-neighbour texel lookup and error messages;
  - `decimal.rs`: unsigned decimal parsing and formatting;
  - `text.rs`: character access and comparison for strings;
  - `roundtrip.rs`: proof that the reader reads back what the writer writes.
- `app/` is the renderer itself (floating-point geometry, shading, scenes),
  file and terminal I/O, and `main`.
- `tests/` exercises the library.
