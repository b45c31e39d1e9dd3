# dcautoquest

The verified core of DCAutoQuest, a desktop utility that runs a small idle process under the name
of a game.

- `src/text.rs`: characters, stripping, splitting, joining, decimal numbers
- `src/path.rs`: paths below a known directory, as lists of parts
- `src/target.rs`: which executable names are accepted, and the paths they stand for
- `src/title.rs`: clean titles, and the arguments that carry them
- `src/workspace.rs`: the directories below the temporary directory of the system
- `src/simulation.rs`: the active simulation, its status, and how it is stopped
- `src/start.rs`: how a simulation is started
- `src/fault.rs`: failures and their messages
- `src/window.rs`: the decisions and texts of the window of a simulated game
- `app/`: the host, that is processes, files, the clock, the window system and the commands

Starting, stopping and the window are machines of small steps. The library decides the next step, the host
does it, and every decision is proved for every answer of the system. The public proof
functions whose names begin with `law_` state what holds of the library as a whole.
