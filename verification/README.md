# hella

The front end and the lowering of the Hella language, written in Verus: lexer, parser, formatter,
module resolution, lowering to an intermediate representation, and the decisions of the command
line tool.

- `src/` is the library. Every function carries a contract over spec functions of the same
  modules, and Verus proves it.
- `tests/` runs the library.
- `app/` is the command line tool around it: files, processes, terminal output, and LLVM.

## Modules

| Module | What it holds |
|--------|---------------|
| `text`, `source`, `paths` | characters, byte offsets, paths as text |
| `token`, `lexer` | tokens with their spans |
| `ast`, `tree` | the syntax tree, and the same tree as a mathematical value |
| `parse` | the grammar (`rules`, `grammar_*`) and the parser (`syntax_*`, `program`) |
| `formatter` | the layout (`layout*`, `compact`), the printer (`print*`, `comments`), the proof that comments are kept (`preserve*`, `shown`), and the ones that comments and imports settle (`settle*`) |
| `modules` | search roots, resolution and expansion of imports |
| `project`, `driver`, `error` | manifests, builds, summaries, diagnostics |
| `codegen` | the intermediate representation (`ir`), the state of a lowering (`state`), and the lowering |
| `laws` | what holds of the library as a whole; for lowerings, `codegen::laws` |

Lowering makes a list of steps in blocks of functions. `app/backend.rs` replays that list with
LLVM's builder, so LLVM 21 has to be there to build the tool; the library does not need it.

What Verus does not prove, but takes from the standard library, stands in two modules: `String::push`
and `char::is_alphanumeric` in `text`, and how a string is written in quotes in `project`.
