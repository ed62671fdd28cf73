# xcp

An extended `cp`: copies files and trees with progress feedback, sparse-file
awareness, reflinks, numbered backups and two copy drivers (file-parallel and
block-parallel).

- `src/` is the library, verified with Verus: extent merging, the splitting of
  files into block jobs, the walk over the data segments of sparse files, the
  user-space copy loops, the meaning of the kernel's copy, clone and extent-map
  results, numbered backups, option parsing, driver selection, progress
  grouping and the per-entry decisions of a tree copy. The laws it keeps are
  stated as proof functions next to the code they are about.
- `app/` is the program around it: the command line, the system calls, the
  worker threads and the progress bar.
- `tests/` exercises the library on concrete values.
