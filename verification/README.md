# export_findmy

Exports the private keys of Find My accessories from iCloud, as pairs of `.plist` and `.json` files.

The library under `src/` holds the rules of the exporter: what it reads, makes and writes, and what
it does next. Its behaviour is stated in `requires` and `ensures` clauses and proved with Verus. The
program under `app/` talks to the terminal, to files and to Apple's services.

## Modules

| Module | What it states |
|--------|----------------|
| `options` | the command line, and where a run keeps its files |
| `run` | the course of a run, from the login to the files |
| `session` | which stored state serves an account, and the dialogue of a login |
| `profile`, `document` | the device profile: reading it, completing it, saving its escrow password |
| `device` | what the device of a profile says of itself |
| `escrow` | describing and choosing escrow bottles, and setting up an escrow password |
| `deletion` | the dialogue that deletes an escrow bottle |
| `store`, `accessory` | the records of a beacon store, and the accessories that they make up |
| `export`, `plist_tree`, `json_tree` | accessories as property lists and as JSON |
| `filename` | file names for accessories, and temporary names |
| `serial` | serial numbers inside stable identifiers |
| `identity`, `hexadecimal`, `text`, `timestamp` | identifiers, digits, characters, instants |

Functions whose names begin with `law_` state what holds across several functions: that a profile
reads back as it was saved and keeps its other entries, that a bottle is deleted only after every confirmation, that both files
of an accessory hold the same keys, that a run which deletes a bottle exports nothing.

Calls into other crates stand behind small functions marked `external_body`. The comment above each
says what is taken for granted there.
