# afd — ARM Flow Decoder

Builds control flow graphs of AArch64 programs at the level of basic blocks,
from their disassembly (as `aarch64-linux-gnu-objdump -d` writes it) and, for
indirect branches, from the branch trace of a simulated run (gem5).

The library under `src/` is verified with Verus:

- `text`, `pattern`: string utilities, and regular expressions behind a small
  trusted interface to the `regex` crate.
- `module::analyzer`: subroutines from a disassembly, and the whole analysis of
  a program.
- `module::assembly`: instructions, and the resolution of branch targets along
  calls and returns.
- `module::basic_block`: leaders and basic blocks.
- `module::cfg`: edges of the control flow graph, and its text and Graphviz forms.
- `module::input`: input paths and the plan of the outside work (compiling,
  disassembling, simulating).
- `module::instruction`, `module::checkpoint`: the branch types of the
  architecture, and the text of checkpoints of an analysis.

`app/main.rs` is the program around the library: command line, files, and
the outside tools.
