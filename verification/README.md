# iroh-git

Sharing git repositories over [iroh](https://github.com/n0-computer/iroh): push and pull directly
from a friend's computer, without open ports, fixed addresses or a VPN.

The library in `src/` holds what the programs decide, and Verus proves that it does what its contracts
say:

- `ticket`, `base32`, `wire`, `protocol`: tickets and handshake messages, byte for byte, and that they
  are read back as they were written;
- `config`, `share`, `daemon`, `laws`: the grants, what grants and revocations do to them, the daemon's
  verdict on every request, and how these fit together;
- `lfs`, `digest`, `transfer_agent`, `lfs_hook`: Git LFS objects over iroh;
- `remote_helper`, `cli`, `tray`, `git`, `identity`, `paths`: what the programs say, ask and show;
- `node`, `random`, `text`, `sequences`, `error`: what the rest is built on.

Outside crates are called through small functions marked `external_body`, whose doc comments say what
is believed of them.

`app/` is the programs: one executable that acts by the name it is called by (`git-iroh`,
`git-remote-iroh`, `git-lfs-iroh`, `iroh-git-daemon`, `iroh-git-tray`). It does the input and output.
