# feverish (verified core)

The logic of a small horror game, written in Verus and proved against its
contracts. The engine, rendering, audio and file handling stay in `app/`, a thin
text front end that drives the library.

`src/`
- `text` — character-level helpers (trimming, searching, ASCII case, decimals).
- `phonetic`, `voice` — the phonetic front end of the formant voice and the voice presets.
- `script`, `script_ron`, `rat_format`, `asset` — dialogue scripts, their builders,
  the `.rat` text format, the plain `.ron` form and loading by file extension.
- `dialogue` — the dialogue runtime: a command and the player's items in, the next
  state and the effects for the game out.
- `discovery` — the discovery database (items carried, people met).
- `panel`, `menu`, `inventory`, `ending`, `settings` — layout and input rules of the
  dialogue panel, main and pause menu buttons, inventory keys and mouse, ending
  screen and settings list.
- `npc`, `door`, `sky` — how people react to dialogue hooks and walk their paths,
  how doors open, lock and lead on, and which constellations the sky shows.

Each module states its laws as public proof functions named `law_*`.
