# jos_tools

Verified helpers of the jOS build scripts.

- `src/` is the library, verified with Verus:
  - `text`: character-level string operations (`lines`, `trim`, `split_whitespace`,
    `split_once`, `replace`, joining) with their meaning stated as spec functions;
  - `groups`: named groups of items in first-appearance order, with de-duplication;
  - `emoji_test`: reading Unicode's `emoji-test.txt` into emoji groups;
  - `kaomoji`: turning kaomoji categories into groups;
  - `xml_array`, `array_tables`, `categories`: filling the string arrays of the keyboard's
    emoji resource file;
  - `cli`, `manage`, `fork`, `ci`: the decisions of the command-line tools, the manager's and
    the fork tool's command plans.
- `app/` runs the tools: arguments, network and file access, running `git` and `gh`.
- `tests/` exercises the library.
