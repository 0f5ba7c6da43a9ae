# m68000

A Motorola 68000 interpreter and assembler (code emitter) in Rust, verified with Verus.

The core executes the common user and supervisor instructions of the M68k ISA. Its behaviour
(execution times, exception stack frame) follows a CPU described by the `CpuDetails` trait:
the crate provides the MC68000 and the SCC68070. The memory map belongs to the user, who
implements the `MemoryAccess` trait; it is implemented for `[u8]` and `[u16]` slices, big-endian.

## Layout

- `src/lib.rs`: the registers and the core (`M68000`), with its queue of pending exceptions.
- `src/status_register.rs`: the status register, its raw value and the condition codes.
- `src/addressing_modes.rs`, `src/instruction.rs`, `src/isa.rs`: addressing modes, operands and
  the decoding of opcodes and extension words.
- `src/assembler.rs`: the code emitter, and the laws that decoding gives back what it emits.
- `src/arithmetic.rs`: the arithmetic of the instructions (flags, BCD, shifts, division).
- `src/memory_access.rs`: the `MemoryAccess` trait, the slices implementing it, and reading and
  writing operands.
- `src/interpreter.rs`: the execution method of each instruction.
- `src/interpreter_fast.rs`, `src/interpreter_unified.rs`: fetch, decode, execute and the run loops.
- `src/cached_interpreter_*.rs`: interpreters that cache decoded instructions.
- `src/fastmem.rs`: a paged memory whose absent pages go to a slow memory.
- `src/exception.rs`: exception vectors, priorities and their processing.
- `src/cpu_details.rs` and `src/cpu_details/`: the execution times of the supported CPUs.
- `src/callbacks.rs`: the plain values a C interface exchanges with the core.
- `src/utils.rs`: bit fields, carrying arithmetic and word slices.
- `app/main.rs`: a disassembler of binary files and a minimal SCC68070 board running a test ROM.

## What the contracts record

The memory belongs to the user, so the contracts speak of what the core hands to it. The core
keeps four ghost records: `stores` (the writes the memory accepted), `loads` (the operands it
answered), `refused` (the requests it refused, address and size) and `fetches` (the address of
each instruction decoded from it, with the words it answered there). Instruction contracts state
their effect on these records: an Address Error comes exactly of an odd word or long address, and
an Access Error comes of a refused request. The cached interpreters state which cached
instructions they run, that they decode from memory on a miss, and which cache entries a call may
change. They do not state that the cache stays coherent with the stores: the cache is invalidated
at the last write of each instruction as the memory wrapper sees it, which the instruction
contracts, generic over the memory, do not describe.
