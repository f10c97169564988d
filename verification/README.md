# Address search over the RÚIAN register

`src/` is a Verus-verified library with the logic of the address search:

- `normalize`: the normal form in which addresses are indexed and searched
  (Latin letters with diacritics or in other forms as their ASCII base letter,
  other letters, `ß` and `æ` among them, in lower case, one space between
  words; never longer than the text) and the padding of short numeric tokens
  for the full-text index;
- `normal_form`: the normal form stated directly, as the folded runs of the
  characters it keeps joined by single spaces, and the normal form of two
  texts joined by a space;
- `search`: the `search` column stored with each address, every numeric word
  of it padded to three characters;
- `index_columns`: the derived columns stored beside it (the number in the
  street name, the Prague district number, the house/orientation keys);
- `plan`: what a typed input asks for: its text words, house-number
  candidates, postal codes and postal-code prefixes, and slash pairs; no
  search at all without a text word, or with number words none of which can
  be matched;
- `query`: the ranked SQL statement: one branch per kind of match (exact house
  number 500, number in the street name 400, Prague district 300, exact postal
  code 220, postal-code prefix 210), each requiring the full-text query, and
  the full text alone (100) only when the input gives no number; each address
  kept once at its best rank, ordered by rank and full-text score;
- `matching`: what the full-text condition requires: word order does not
  matter, more words require more, and indexed words are found;
- `sql`: that statement as an sqlx `QueryBuilder` for MySQL;
- `display`: the line that lists an address among the results, and the card of
  the selected address;
- `requests`: when the search box clears, searches, and which answers it still
  wants;
- `batch`: when the importer writes the rows it has collected;
- `text`, `chars`, `numbers`, `address`: trimming, splitting, joining, character
  classes, decimal numbers and the address record.

`app/` holds what Verus does not see: the CSV importer (`main.rs`), database
access with sqlx, and the Leptos front end (`web/`).
