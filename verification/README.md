# polars_metal

The verified core of a GPU engine for Polars on Apple Silicon.

`src/` is a Verus library. It holds everything the engine decides or computes on
plain values: bitmaps and dictionaries, plan parsing, routing, expression
fusion, the checks before each kernel, the state machines that drive filters,
group-bys and tiled searches, and the encoding of results. Every function states
what it returns for every input, given the address where the allocator put a
host buffer, and the laws that span several functions are public proof functions
beside them.

Floating-point values are held by their bit patterns. Python objects arrive as
`wire::WireValue`. Outcomes that raise are `error::Failure`, whose view is the
class and the exact text of the exception.

`tests/` runs the library. `app/` is the Python module around it: PyO3 bindings,
Metal devices and buffers, and the seam to the kernel and array libraries, which
`app/backend.rs` describes. It needs macOS.
