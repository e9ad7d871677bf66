# calyx

Parts of the Calyx hardware compiler and of its interpreter, written in Verus
and verified against their contracts.

- `values`: fixed-width bit vectors and the numbers they denote.
- `primitives`: the primitive cells of the standard library (registers,
  constants, shifts, arithmetic, logic, comparisons) and the update of a
  cell's output ports from its input ports in an environment.
- `environment`: the cells of each component and the numbers on their ports.
- `update`: the queue of updates that one clock cycle performs.
- `ast`, `structure`: the syntax of components and control statements, and
  the structure graph of cells, groups and guarded assignments.
- `ir`: the representation that the analysis passes read.
- `passes`: `compile_control` (compiles `if`, `while`, `seq` and `par` into
  groups), `add_read_wire`, `synthesis_papercut` and `infer_static_timing`.

The tests under `tests/` run the library on concrete programs.
