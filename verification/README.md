# Full-text index rules, verified

A library for full-text indexes over data lake tables. The rules of the index are written in Rust and
proved with Verus; tantivy does the indexing and the searching.

- `src/` is the library. Every function states in its contract what it returns and when it refuses.
- `app/` is the code around it: temporary files, tantivy's index, JSON and the C interface.
- `tests/` runs the library together with tantivy, roaring and levenshtein_automata.

## Modules

| Module | What it holds |
| --- | --- |
| `text`, `error`, `score` | strings, numbers, errors, and floating-point numbers by their bits |
| `tokenizer`, `option_laws` | the tokenizer's configuration and the options that set it |
| `config`, `schema` | the fields of an index and its documents |
| `analyzer`, `analyzer_laws` | the stages that cut a text into tokens |
| `greek` | the Greek words that cannot be stemmed |
| `writer`, `storage` | documents, the archive and its file format |
| `query`, `plan_model`, `planner` | queries and the plans that they become |
| `plan_laws`, `boolean_laws` | what holds of every plan |
| `automaton`, `docset` | fuzzy tokens and the documents that they lead to |
| `reader` | searches, row filters and their results |
| `boundary`, `metrics` | the rules of the C interface and the counts of a reader |

## File format

An index file begins with the eight bytes `PFTIDX01`, the format version (1) and the length of the
header, both as 32-bit numbers with the low byte first. The header is JSON: the metadata and, for each
file of the index, its name, its offset behind the header and its length. The files follow one after
the other.

## Options

Options are accepted with the prefix `fulltext.`, with `tantivy.` and without: `tokenizer`,
`ngram.min-gram`, `ngram.max-gram`, `ngram.prefix-only`, `jieba.search-mode`,
`jieba.ordinal-position`, `lower-case`, `max-token-length`, `ascii-folding`, `stem`, `language`,
`remove-stop-words`, `stop-words`, `with-position` and `text-fields`.
