# runemark

Terminal output for command-line tools: verdict lines, error blocks, file
change lists, audit reports, progress lifecycles and interactive selection
menus, with a colour policy and neutralisation of untrusted text.

The library under `src/` is written in Verus. Every renderer states, in its
contract, the exact text it appends, as a function of its inputs and the
console's colour setting; a file link's target is stated as the verified
fallback over what the file system and the platform answer; the laws (what plain output never contains, how
tall a menu frame is, which tabs and footer lines a width admits, how
wrapping keeps words) are public proof functions beside the code they
speak of.

- `src/text.rs`, `src/color.rs`: measuring, neutralising and painting text.
- `src/verdict.rs`, `src/diff.rs`, `src/error_block.rs`, `src/location.rs`:
  the small renderers.
- `src/report/`: the report model, word wrapping, the top-issues ranking and
  the report renderer.
- `src/select/`: menus — layout, search ranking, the frame, its height, key
  handling and terminal key decoding.
- `src/progress.rs`: the progress lifecycle and its plain sink.
- `src/binding.rs`: the checks behind the Node interface.
- `src/plain.rs`: what colourless output guarantees.
- `app/`: terminal I/O, the `indicatif` sink, the raw-mode key reader and
  the Node classes.
