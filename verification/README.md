# latency_lab

Two latency experiments whose logic is verified with Verus.

* `session01_dense_book` replays one million deterministic operations, seven lookups and
  three updates in every ten, against a price book on a search tree and one on a dense
  array, and compares the times.
* `session02_false_sharing` lets two threads count on two atomic counters, once on a
  shared cache line and once on a line each, and compares the times.

`src/` is the verified library:

* `dense_book`: the books, the workload, the replay and its checksum, the command line,
  the order of the runs; `agreement` proves that both books answer the workload alike.
* `false_sharing`: the scripts by which a coordinator and two workers measure together,
  with the proof that no interleaving of parties that follow them loses an update or
  escapes the clock; the checksum, the command line, the order of the runs.
* `arguments`: decimal numbers and texts on a command line.
* `statistics`: the extremes and the median of the times.

What is proved of the threads is proved of the scripts. That the threads in `app/` follow
them is not proved.

`app/` is the program around it: threads, atomics, clocks of the second experiment, and
floating point for what is printed.
