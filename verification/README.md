# landscape

The router services of Landscape, with their decisions written in Verus and
proved against their contracts.

- `src/` is the verified library: the DHCPv6 prefix delegation client as a
  state machine over plain messages (`dhcp_client`), the live connection
  table, the metric queries and the writer's bookkeeping (`metric`), the
  GeoIP cache and the rules that read it (`config_service`), the start
  decisions of the interface services (`service`), interface management
  (`iface`), container networking (`docker`), the configuration file rules
  (`sys_service`), address text (`net`, `text`) and the arguments of the test
  programs (`cli`). Calls into dhcproto, sha2, toml_edit, regex, rand, uuid
  and dashmap stand behind small trusted wrappers; their contracts state, as
  read from those crates' sources, what each call returns and, in their
  `requires`, the inputs on which a call runs without a panic (such as the
  datagrams handed to dhcproto's decoder and the message sizes its encoder
  takes). Nothing checks those contracts but a reader of those sources.
- `tests/` runs the library on concrete values.
- Not here: the work that runs on crates of the Landscape project that are
  not published, or on DuckDB. The metric database (its writer thread, the
  SQL it runs, the expiry of old rows) keeps only its decisions in `metric`:
  the batches, the cut-off times and the query texts; nothing executes them.
  Likewise the GeoIP download, the packet filters, and the in-memory copy of
  the configuration are absent.
- `app/` is the runtime around it: sockets, timers, files, processes,
  netlink, the Docker daemon and the command-line parsers. It performs what
  the library decides.
