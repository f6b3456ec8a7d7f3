# mdd

`mdd` converts a Markdown file into a Word (.docx) document laid out for
Japanese business documents: numbered headings, numbered figure and table
captions, Japanese and Latin fonts, and spaces between Latin and Japanese
text removed.

The crate is written in Verus.  `src/` is the verified library:

- `parser`, `events`, `preprocess`, `footnotes`, `markup`: reading Markdown
  into blocks and inline elements (`ir`), with the `<div class>` and inline
  footnote rewriting that comes before the Markdown parser, and the rule that
  the page-break directive stands alone in its paragraph;
- `runs`: the runs of text that inline elements become in a Word paragraph;
- `layout`: image sizes, table grids, caption numbers, heading numbering,
  list prefixes and indents;
- `picture`: images turned into PNG with their pixel size;
- `config`: the settings and their defaults;
- `laws`: properties that span several functions, proved over the models
  that the functions' contracts use.

`app/` is the command-line program: it reads the files, loads the TOML
settings, and writes the Word document with docx-rs from the library's
decisions.

```sh
mdd document.md -o output.docx -c mdd.toml
```
