# quilting_webgpu

Host-side logic of Quilting's WebGPU backend, verified with Verus.

The library decides everything the backend computes on the CPU before or
after touching the device: which retained frame tables and classifier words
must be uploaded, how pick requests are encoded and readbacks decoded, how a
focus composition is lowered to full-screen passes, which PBR textures are
resident, how cube-map payloads and atlas mips are laid out, whether the
packed scene words handed to the device are well formed, and whether a
sparse adaptive overlay still belongs to the scene and roots it is drawn
with.

- `src/` holds the verified library. Real values travel as IEEE-754 bit
  patterns; every public function states its result exactly, and the laws
  relating several calls (reuse after an unchanged frame, contiguous payload
  layouts, epoch tracking, round trips of pick identities) are proof
  functions beside the code they describe.
- `app/` holds the device plumbing: buffer creation and queue writes that
  follow the library's decisions, asynchronous readback, binary16/binary32
  conversions that need floating-point arithmetic, and a displayable error.
- `tests/` exercises the library on concrete scenes, including comparisons
  of the integer encodings with the hardware's float conversions.
