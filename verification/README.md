# obsidian-paper-cache (verified library)

Caches the metadata of the academic papers of an Obsidian vault in SQLite and
searches it. The logic is a Verus-verified library under `src/`; the command
line program around it (`app/`) does the file, database and terminal work.

- `src/text.rs`, `src/num.rs`, `src/unicode.rs`: characters, trimming, searching,
  splitting, integers.
- `src/bibliography.rs`: the `## 書誌情報` table of a note, row by row.
- `src/parser.rs`: the frontmatter block, file names, and the paper of a note.
- `src/query.rs`: the SQL of filter queries, the rows that store a paper, the
  papers to remove.
- `src/similarity.rs`: what each text condition of a filter is compared with.
- `src/refresh.rs`: what a build does with each note and how it counts them.
- `src/report.rs`, `src/output.rs`: the statistics report, the table and XML output.
- `src/scanner.rs`, `src/cli.rs`: which files are notes, and `~` expansion.
