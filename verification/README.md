# minecraft-k8s

Tooling for running modded Minecraft servers on Kubernetes, with its logic
verified by Verus.

- `src/` is the verified library: the server configuration and its rules
  (`config`), the error type and its messages (`error`), the Kubernetes
  documents rendered for a server (`k8s`, built with the JSON tree of `json`),
  manifest files and their checks (`manifest`), how the documents refer to
  one another and pass those checks (`links`), the RCON packet format and
  client decisions (`rcon`), mod file checks (`mods`) and the order mods are
  listed in (`order`), the dashboard's decisions (`dashboard`), the health
  probe's (`health`), the command line's exit codes (`cli`), `eula.txt`
  (`eula`), and the text helpers they share (`text`).
- `app/` is the `minecraft-k8s` program around it: argument parsing, reading
  and writing files, sockets, the HTTP dashboard, and YAML serialisation.
- `tests/` exercises the library on concrete values.
