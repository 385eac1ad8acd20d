# precious

One code quality tool to rule them all: `precious` runs the linters and tidiers
of a project with one command and one config file.

`src/` is a library of the decisions that such a run takes, verified with Verus.
Each function states in its contract what it returns, and the laws that tie
several of them together stand next to them as public proof functions.

| Module | Holds |
| ------ | ----- |
| `cli` | the command line, the mode in which paths are selected, the log level |
| `logger` | the colors of log records and the line that a record becomes |
| `path` | paths as lists of components |
| `search` | the project root and the config file |
| `precious` | the settings that a command line leads to |
| `run` | a run from its start to its exit status |
| `report` | what is told and kept of a command on a set of files |
| `exit` | the list of failures and the exit that it leads to |
| `duration` | times in words |
| `error`, `chars`, `text` | error messages, symbols, lists and numbers as text |

The library does no I/O. A search takes a function that says whether there is
something at a path. A run is a sequence of steps: it says which command comes
next and is told what came of it.

`app/` is the program around the library: `clap`, the logger, the file system,
the terminal and the thread pool. It takes the config, the search for files and
the commands as traits.
