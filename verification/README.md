# refraction

Turns newsletters fetched over IMAP into Atom feeds, with contracts proved
by Verus.

- `src/` is the verified library: IMAP search queries and sequence sets
  (`query`), calendar days and instants rendered through chrono (`date`),
  feed entries and their readable variant (`entry`), de-duplication by id and
  the update of a stored feed (`feed`), fetched mail turned into entries
  (`message`), Atom documents written and read (`atom`), and the settings
  types (`config`, `capture`, `gmail_config`). Calls into chrono, md5,
  quoted_printable, mail-parser, readable-readability and atom_syndication
  stand behind small trusted wrappers whose contracts are documented where
  they are declared.
- `app/` holds the programs: reading settings, talking to the IMAP server
  (imap, native-tls, melib, async-native-tls), and reading and writing the
  feed files.
- `tests/` exercises the library on concrete values.
