# Glacier

Glacier sets up, installs and switches NixOS configurations. `glacierctl` asks the
questions, writes the files and follows the builds; `glacierd` runs the builds for
root, on the system bus.

The library in `src/` decides everything, and is verified with Verus. What it takes
from outside (regular expressions, colors, two conversions of `std`) is called through
small wrappers and one assumed specification, whose contracts are trusted and say so.
The library does no input or output: a flow asks for one thing at a time (let the user
choose, run a command, write a file) and goes on with the reply.

| module | what it holds |
| --- | --- |
| `text` | operations on text, stated over sequences of characters |
| `style` | styled text |
| `system` | commands, and what is read from what they print |
| `template`, `config`, `slots` | the files of a configuration |
| `flow`, `plan`, `survey` | requests and replies, rows of commands, the questions |
| `partition`, `install` | the installer |
| `init` | setting up a configuration |
| `pattern`, `log` | the build log |
| `client` | following a build |
| `daemon` | the service |
| `protocol` | what client and daemon can rely on |

The laws are the public proof functions whose names start with `law_`.

`app/` is the program around the library: the terminal, the bus, processes and files.
It is `glacierd` when it is started under that name, and `glacierctl` otherwise.
