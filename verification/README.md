# deploy

Deploys the profiles of a Nix flake to the machines they are for.

`src/` is the library. It holds the decisions of a deployment, written in
Verus, with contracts that are proved:

- `sudo`, `data`, `deployment`, `remote_protocol`: what is configured and what the
  machines tell each other
- `cli`, `targets`, `requests`, `selection`, `prompt`, `rollout`: from the command line to the
  order in which profiles are built, copied, deployed and revoked
- `push`, `builds`, `results`, `copy`: which commands build and copy profiles, and
  what their output means
- `deploy`: the deploying side of a session on a remote machine
- `activation`, `session`, `profile`: the remote side
- `command`, `json`, `names`, `bytes`, `text`: what the others are written in

What the library promises as a whole stands in the proof functions whose names
begin with `law_`.

`app/` runs the commands, reads and writes files and connections, and asks the
user. It is one executable: called `activate` it is the program that activates
profiles, and otherwise the one that deploys them.

`tests/` runs the library on concrete values.
