# agy-search

Source-backed web research through Google Antigravity, as a verified library and a thin
command-line program around it.

- `src/` is the library, verified with Verus: strict calendar dates and release versions,
  HTML source documents and the facts they state, URL and source-restriction rules, the
  research-tool policies that judge an Antigravity event stream, the validation of returned
  documents against their requests, the prompts, the command lines of Antigravity and curl,
  the parsing of probed redirect hops, the model catalog, and the decisions of a run
  (retries, the walk of one redirect chain, which grounding transports to resolve, how a
  standard search's answer is projected onto its resolved sources, and how the scopes of a
  temporal comparison are recovered).
- `app/` is the program: argument parsing, standard input, child processes, DNS, files, JSON
  on the wire and the JSON schema of answers.
- `tests/` exercises the library on concrete values.
