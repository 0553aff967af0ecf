# zhipukit

The logic of ZhipuKit, a desktop companion for Zhipu's coding plan, and of
the status line it installs into the coding assistant: reading and rewriting
the assistant's `settings.json`, reading the API's replies into quota
figures, the status-line cache, and the status texts. Every function of the
library carries a contract that Verus proves.

- `src/`: the verified library (`json` and `text` are its building blocks;
  the public proof functions named `law_*` state what holds across calls).
- `tests/`: tests of the library on concrete values.
- `app/`: the window, the tray, the two status-line programs and their file,
  process and network work, around the library. Amounts of money and token
  ratios, which are floating point, are computed there.
