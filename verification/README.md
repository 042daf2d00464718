# bifrost

A library for the protection of files, written in Verus: backup and restore of trees,
between local directories and NFS or SMB servers, with small files collected into blobs.

The functions of `src/` carry contracts that Verus proves, but for the small ones behind
which calls into other crates stand, and for `RestoreOps::restore_metadata`, which does
nothing until a target overrides it. The library decides and
computes; reading and writing is left to its callers, who hand in the outcome of each
operation and get back the next step.

## Layout

- `src/` is the verified library. `lib.rs` says which module holds what.
- `tests/` runs the library on concrete values.
- `app/` is a program around the library: backup and restore of local trees, a task server,
  and tools that compare directories, generate file sets and inspect metadata. It does the
  input and output, and the arithmetic with floating point numbers.

## What is proved

Each contract says what a function returns or changes for every input it accepts, errors
included. Beyond that, public proof functions whose names begin with `law_` state what holds
of several functions together. Some of them:

- A file that went into a blob is read back unchanged, through the binary index as well as
  through the table of a directory (`law_blob_gives_back_files`, `law_index_reopens`,
  `law_aggregated_block_is_read`, `law_dir_level_file_is_found`).
- No file is lost or doubled on its way into a blob, at each step and over a whole run
  (`law_every_file_waits_or_is_handed_out`, `law_every_local_file_comes_out_once`), it is found
  in the index afterwards (`law_committed_blob_is_read_back`), and identifiers and names of
  blobs grow and differ (`law_next_id_grows`, `law_blob_names_grow`,
  `law_names_of_one_generator_differ`).
- A file that is read and written in parts arrives whole (`law_parts_make_up_the_file`).
- No call on a counter is lost (`law_snapshot_sums_up_the_calls`, `law_blob_is_counted_once`),
  and the steps of a restore move the counters as its tally says
  (`law_restore_tallies_its_steps`).
- Every entry of a job is counted exactly once (`law_every_block_is_counted`,
  `law_every_file_is_accounted_for`, `law_every_deletion_is_counted`,
  `law_every_link_is_counted`, `law_every_directory_is_counted`).
- What a pipeline writes on its target is what it read from its source
  (`law_files_are_written_as_read`, `law_copy_moves_the_file`).
- A path that was put below a base is found again (`law_strip_undoes_join`,
  `law_prefixed_path_is_found_again`).
- A task that is over stays over, and limits on running tasks are kept
  (`law_task_ends_once`, `law_signalled_task_ends`, `law_limits_are_kept`).

## What is trusted

Calls into other crates stand behind small functions whose doc comments begin with
`Trusted:` and say what is claimed of the call: `bincode`, `base64`, `csv`, `sha2`, `chrono`
and `uuid`, and a few functions of the standard library.
