# kalba

The bookkeeping of a language-learning reader, verified with Verus: what is known of each
word, the settings of each language, the record saved between sessions, the naming of new
languages, and the planning of the work that brings word knowledge up to date.

- `src/` is the verified library. `str_map` is a map keyed by text; `model` holds the data;
  `words` changes word knowledge; `lines` splits a text into lines; `naming` and `templates` add languages; `refresh` plans
  deck checks and frequency-list readings; `state` holds what the commands share; `time`
  measures instants with `chrono`; `laws` proves properties that span operations.
- `app/` is the process around it: loading and saving files, downloads, and the commands.
- `tests/` runs the library on concrete values.
