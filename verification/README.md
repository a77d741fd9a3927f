# kernel

Task management and the process system calls of a small kernel, verified with Verus.

- `src/mm`: virtual addresses, page ranges, and the address space of a task.
- `src/task`: one task (`control.rs`), the task manager that schedules all of them
  (`manager.rs`), and the functions around it.
- `src/syscall/process.rs`: the process system calls.
- `src/step.rs`: the changes that the kernel can make to its tasks, as one relation. Each
  call's contract says which step it takes.
- `src/laws.rs`: what holds of the kernel as a whole, proved.
- `app`: the kernel on its machine. It holds the one task manager, reads the clock and
  the files, switches contexts and writes to user memory.
- `tests`: the library on concrete values.

A task's id is its index in the task list. A child that has been waited for leaves the
list, and the first place that is free goes to the next new task. Every function's
contract speaks of `ManagerView`, the tasks as a mathematical value. What a system call
needs of the machine is an argument, and what it asks of the machine is part of its
result: a context switch to make, a value to write to user memory, or a child that has
left the task list and whose page table can be released.
