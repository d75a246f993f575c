# mmurtl_rs

The logic of a message-passing, multitasking real-time kernel for amd64 and
arm64, written in Rust and verified with Verus.

- `src/` is the library. It decides: which task runs, where a page goes, what a
  driver writes to a register, what a directory entry holds. Every function
  states what it gives back, and Verus proves it. Hardware is met through plain
  values: a function gives the accesses to make, or is a machine that says which
  access it needs next and is given what came of it.
- `app/` is the kernel image around it. It performs the accesses, holds the
  library's values behind locks, and enters it from boot loaders, interrupts and
  tasks.
- `tests/` runs the library on concrete values.

| module | what it holds |
|---|---|
| `scheduler` | tasks, CPUs, request blocks: send, receive, reply, sleep, exit |
| `ipc`, `userspace`, `syscall` | services by name, user programs, system calls |
| `memory` | frame allocator, page tables, heap, user window |
| `fs::exfat` | mounting, reading and creating files |
| `virtio`, `pci`, `usb` | queues, block and network devices, buses, HID reports |
| `acpi`, `apic`, `interrupts`, `smp`, `gdt` | what amd64 machines are made of |
| `arch::amd64`, `arch::arm64` | boot, contexts, paging, controllers of each machine |
| `line`, `serial`, `text`, `bytes`, `bits`, `inline` | text, numbers and collections below all that |

Laws that span functions are public proof functions whose names begin with
`law_`. The functions of the `heapless` crate that the library calls stand in
`inline`, each with the contract that is taken from its source.
