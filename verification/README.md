# ox

The core of a terminal text editor, verified with Verus: which documents are open, how they are
laid out, which one is being edited, and what every command, event and configuration value does to
that state.

The library does not touch the terminal, the disk, the clock or the scripting engine. Where an
operation needs them, their outcome comes in as a plain value, and what is to be done next goes out
as one. Documents are those of `kaolinite`, and syntax highlighting is that of `synoptic`; the
library calls both.

| Module | Contents |
| --- | --- |
| `editor` | the state of the editor, its invariant, creating documents, moving between them |
| `opening` | opening files, and creating those that do not exist |
| `saving` | saving and closing documents |
| `events` | events of the terminal, pasted and typed text, configuration |
| `layout`, `layout_laws` | the tree in which the documents are arranged, and what holds of it |
| `laws` | what holds of the editor across its operations |
| `document`, `highlight` | what is trusted of `kaolinite` and of `synoptic` |
| `directory` | the working directory that goes with a document |
| `container`, `input`, `config`, `error`, `ui` | plain data |

`app/` drives the library on a real terminal. It leaves drawing, prompting, editing and scripting to
an implementation of its trait `Interface`.
