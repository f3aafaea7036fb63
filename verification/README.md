# gif_editor

The logic of an editor for recorded animations: frames, timing, layers, previews, playback,
motion edits, titles, export presets, and the insertion of one project into another.

- `src/` is the library. Verus proves the contracts of all its functions but for the two
  trusted ones named below.
- `tests/` runs the library on concrete projects.
- `app/` is the window around it: widgets, files, workers and textures.

## What is where

| Modules | What they hold |
| --- | --- |
| `geometry`, `time`, `ids`, `identity` | sizes, times, identities, and how new identities are drawn |
| `content`, `overlay`, `frames`, `project` | the parts of a project |
| `value`, `text`, `memory` | copies, words and numbers, memory that may not be there |
| `ui_*`, `layers`, `layout`, `playback` | what controls ask for, what is told, and what plays |
| `presets`, `export_presets` | settings for export, kept by name |
| `preview*`, `lru`, `surface` | the size and the pixels of previews, and which are kept |
| `insert_*`, `shifting` | the insertion of another project |
| `title`, `authoring` | texts, titles and repeated artwork |
| `conversion*` | timed layers turned into marks owned by frames |
| `motion*`, `spans` | cinemagraphs, freezes and smooth loops |

Properties that span several functions stand in the modules as public proof functions whose names
begin with `law_`.

Two functions are trusted: `identity::random_number`, which draws a random number, and
`memory::reserve`, which asks for memory.
