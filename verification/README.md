# tinycloudinit

A tiny cloud-init for small Linux images: it finds a seed (a directory, a
`cidata` device or the EC2 metadata service), applies the `#cloud-config` or the
script in it once per instance, and grows the root partition and filesystem.

`src/` is the library, written in Verus: everything that is decided or computed,
with its contracts and proofs. It does no I/O. Configuring a system is expressed
in effects (`effect.rs`), which the functions of the library return as values;
work that goes back and forth between decisions and the outside world is
expressed in steps, which take an answer and give the next action.

| Module | What it is about |
|---|---|
| `text`, `number`, `bytes` | texts, numbers in texts, little-endian fields and CRC-32 |
| `config` | the configuration and the content and mode of files |
| `gpt`, `mbr`, `growpart`, `image` | growing a partition in its table |
| `target` | from a mountpoint to a partition, and on to a larger filesystem |
| `http`, `ec2` | responses, and fetching a seed from the metadata service |
| `datasource` | where a seed is looked for |
| `apply`, `steps`, `accounts`, `ssh_keys` | applying a configuration |
| `cli`, `boot` | the command line, and running once per instance |
| `*_laws` | what holds of all of it |

`app/` is the program around the library: YAML, files, sockets, ioctls, threads
and child processes.

Three things are trusted rather than proved: `String::push` and
`String::from_utf8_lossy` of std, and the `STANDARD` engine of the crate `base64`.
