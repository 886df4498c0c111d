# cubic

The verified core of a tool that runs Linux virtual machines with QEMU.
Verus proves the functions under `src/` against their contracts. The
host is a set of traits whose spec functions name what it answers, so the
contracts of the functions that ask it say what is asked and what becomes
of each answer.

- `iso9660/`: writes the single-directory ISO 9660 image of a cloud-init
  seed disk, with laws that each file's bytes sit at the sector its
  directory record names.
- `models/`: architectures, data sizes, images and their order, names,
  port forwards on IPv4 and IPv6 addresses (with their read-back laws), resource budgets, instances,
  and the `[[user@]instance:]path` targets of copies.
- `qemu/`: the command lines of QEMU and `qemu-img`, firmware discovery,
  accelerator probing, and the QEMU machine protocol: messages to and from
  JSON (with a read-back law), request numbering, and the decisions of the
  monitor and the guest agent.
- `machine/`: the directory layout and state of machines.
- `platform/`: the host as traits (files, processes, environment, network,
  terminal), a verified in-memory host for tests, and the byte-by-byte
  reading of a secret.
- `json.rs`, `pattern.rs`, `text.rs`, `paths.rs`: JSON values, regular
  expressions, text and path helpers.

`app/` holds the program around the library: the host implementation on
the real operating system, the TLS connection to the QEMU monitor, the
serde forms of stored settings, and the command line.
