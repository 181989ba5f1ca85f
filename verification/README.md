# msm

A self-hosted manager for Minecraft servers. One instance runs at a time; the manager starts, stops
and switches instances, restarts them after crashes and by schedule, makes and restores backups,
keeps mods and datapacks up to date, imports modpacks, keeps one whitelist and one list of bans for
all servers, and answers to a dashboard and to a Discord bot.

## Layout

- `src/` is the library: the rules of the manager, written in Verus. Every function states in its
  contract what it returns or changes, and the contracts are proved. What happens around the rules
  (processes, files, requests) reaches them as plain values: where work alternates with decisions,
  as in importing a modpack, adding a mod or installing a loader, the library holds a state machine
  that says what to do next and takes in what came of it.
- `app/` is the program around the library: the web server, the processes, the files and the bot.
- `tests/` runs the library on concrete values.

## Where to start reading

| Module | What it holds |
| --- | --- |
| `state` | instances, events and the registry of all instances |
| `instance`, `instance_laws` | the life of an instance, and what holds over the whole of it |
| `config` | settings, and what the files of a server tell |
| `properties`, `properties_laws` | `server.properties`, and what reading gives back of writing |
| `modrinth`, `mod_mgr`, `mod_mgr_laws`, `update_all`, `datapack_mgr` | mods and datapacks |
| `import`, `import_laws`, `modpack`, `ftb`, `setup` | modpacks and loaders |
| `backup`, `backup_laws`, `restart`, `scheduler`, `time` | what goes by the clock |
| `whitelist`, `ban`, `discord`, `api`, `sse` | players, the bot and the dashboard |
| `text`, `slug`, `paths`, `order`, `digest`, `archive` | the ground the others stand on |

A few functions call other crates; their contracts are stated, not proved, and each says so in its
doc comment.
