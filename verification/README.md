# laminax_runtime

Runtime support for heterogeneous tensor computation, verified with Verus.

The library (`src/`) holds the decisions of the runtime, each with a
contract that Verus proves:

- `device/`: device kinds and capability descriptions, the rule that decides
  whether a device meets a set of requirements, the CPU device with its
  host-memory buffers, the simulated CUDA, ROCm, Metal, TPU and Coral devices
  with their arrays, the reading of the host's memory report, and the checks
  that decide whether a Vulkan GPU can serve a set of requirements.
- `graph/`: computational graphs of kernels, their data dependencies, a
  dependency-respecting execution order (or the report of a cycle), and the
  lifetimes of tensors along that order.
- `memory.rs`: buffers and the memory-manager interface of devices.
- `types.rs`: tensor shapes and element types.
- `codegen.rs`: what a code generation backend can compile for, and which
  GPU the Vulkan backend uses.
- `lib.rs`: runtime errors, device enumeration and the runtime context.

`app/` is the ordinary Rust around the library: it reads what the host
reports about itself, drives Vulkan GPUs through vulkano, and offers the
device arrays through numina's array interface.

`tests/` runs the library on concrete values.
