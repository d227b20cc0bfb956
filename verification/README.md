# ventoypilot

Resolves download links for Ventoy/iVentoy assets (Windows images through
Microsoft's download connector, Linux distributions from a static catalog,
rescue tools) and downloads them.

- `src/` is the library, verified with Verus: the catalog model and search,
  the three resolvers (the Windows connector handshake is a state machine,
  `WindowsFlow`, fed one reply at a time), configuration handling, the mock
  HTTP client, file names from URLs, size formatting, checksums, calendar
  dates and the catalog generator's decisions. Calls into `regex`, `url`,
  `uuid`, `sha2`, `hex`, `dirs` and a few standard-library functions go
  through small trusted wrappers whose contracts are documented beside them.
- `app/` is the program around it: command-line parsing (clap), the
  configuration and catalog files (serde, toml, serde_json), the network
  (reqwest, tokio), the progress bar, and the `catalog-gen` mode, selected
  when the program runs under that name.
- `tests/` runs the library on concrete values, with hand-written catalogs
  and a mocked network.
