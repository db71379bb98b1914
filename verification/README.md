# rezygisk

A loader of native modules into Android's zygote, written so that its decisions
can be proved. The library holds the logic: what to hook and how to take it
back, how a process is traced and injected, how the monitor reacts to what it
hears, and how a process's start is run for modules. Verus checks its functions
against their contracts, with the exception of two short wrappers around an
outside crate, whose contracts are believed.

The library touches nothing. It does no input or output, and it never reads or
writes the memory of a process: where something outside has to be done, a
function says what comes next, and its caller does it and hands the result back.
That caller is the program under `app/`.

## Layout

- `src/plti` - hooking functions through the slots of a loaded image: finding
  the slots, planning the writes, replacing read-only pages, undoing.
- `src/elf`, `src/maps`, `src/procfs`, `src/text` - images, memory maps, process
  files and texts as plain values.
- `src/wait`, `src/regs`, `src/remote`, `src/trace`, `src/csoloader` - the
  tracer: wait statuses, registers of four architectures, calls in another
  process, the order of an injection, mapping and relocating a library there.
- `src/monitor` - the monitor of init: control datagrams, children, handing a
  zygote to a tracer, the status text and the state file.
- `src/daemon` - what is made of the daemon's answers.
- `src/loader` - the library inside the zygote: modules and what they can ask
  for, native methods, open files, mount namespaces, leaving the process again.
- `src/cli` - the command line.
- `tests` - tests on concrete values.
- `app` - the program: system calls, sockets, the Java virtual machine.

Proof functions whose names begin with `law_` state what holds across functions,
for example that a hook which fails half-way leaves no slot changed, that a
traced process gets its registers back, or that no module runs in the zygote
itself.

The only outside code that the library calls is the `regex` crate, for the
patterns by which modules choose libraries. The two wrappers around it are in
`src/loader/plt_commit.rs`.
