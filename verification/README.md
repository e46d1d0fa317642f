# narsese

Narsese, the language of the Non-Axiomatic Reasoning System, as a verified Rust library.

- `api`: what every representation of Narsese shares: term categories and capacities,
  the union of term, sentence and task, partly filled Narsese, accessors, formatting
  and extraction of terms.
- `enum_narsese`: Narsese as enums with their meaning: atoms, compounds and statements
  built by constructors (sets keep each component once), sentences and tasks. Equality
  follows the meaning: sets compare as sets, similarity and equivalence in either order.
- `lexical`: Narsese as text structure, before meaning is given to connectors and
  copulas.
- `conversion::string`: formats (ASCII, LaTeX, 漢文) with their formatters and parsers for
  both representations, and a formatter of Typst formulas.

Every function carries a contract that Verus proves: the formatters against
specification functions of the text they write, the parsers against specification
functions of what they read (including the errors they report), and the laws of the
library (equality, set construction, image reading, whitespace post-processing,
idempotence of the lexical text cleaning, and more) as proof functions.

Numbers of truth values and budgets are kept as the bits of `f64` values; turning text
into those bits and back is done by the program under `app/`, which also holds the
interactive illustrator.
