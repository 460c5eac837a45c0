# composefs_sync

Layer synchronisation, image import and mount bookkeeping for composefs, written
in Verus: executable Rust whose behaviour is stated in contracts and proved.

- `src/` is the library. It makes the decisions and touches nothing outside
  itself. Where a task alternates between decisions and outside work, it is a
  state machine: `action` says what to do next, `resume` takes the outcome. Every
  machine has an abstract model in its module, and its contract says that `resume`
  follows the model.
- `app/` is ordinary Rust around the library: system calls, the mount API, varlink
  connections, child processes. It does what the machines ask for.
- `tests/` runs the library against repositories, stores and mount tables kept in
  memory.

| module | what it decides |
| --- | --- |
| `layer_sync` | which content is stored inline, and what a stored layer looks like as a stream |
| `drain`, `drain_laws` | how a stream becomes a layer again, and when it may be committed |
| `finalize` | what makes an image whose layers are there complete |
| `import`, `import_laws`, `progress`, `stats` | the import of an image layer by layer, and that it does not matter how the layers arrive |
| `cstor`, `resolve` | access to containers-storage, and where its images and layers are |
| `skopeo_varlink`, `version` | the handshake with skopeo's image proxy |
| `mount` | the steps of a mount, and which of them may fail |
| `mountid`, `mountregistry` | mount tables, and which mounts can be reused |
| `digest`, `text`, `varlink_types` | digests, text, wire types |
