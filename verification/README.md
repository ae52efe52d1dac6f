# platform_linux

Inspection, planning and staging of network, firewall and wireless changes on Linux routers, written
and proved with Verus.

The library reads what a system shows of itself (`uci show`, `nft`, `iptables-save`, `ip -j`), decodes
it into typed objects, renders typed changes into closed batches, and carries each change through a
transaction whose steps come in one order. It performs no I/O: it names the files to write and the
commands to run, and takes back what they replied.

## Layout

- `src/` is the library. Every function of it is verified, but for the few that call `serde_json`, `ring`
  or std behind a contract that is trusted: each says so in its comment.
  - `text`, `parse`, `net`, `order`, `path`, `json`, `digest`: texts, numbers, addresses, paths, JSON
    and SHA-256.
  - `change`, `firewall_model`, `network_model`, `wireless_model`: the typed objects and plans.
  - `platform`, `openwrt_platform`: what a system is able to do.
  - `firewall_uci`, `uci_render`: the text form of a configuration package, read and written.
  - `firewall_inventory`, `network_decode`, `network_openwrt`, `wireless_openwrt`: inspection of packages.
  - `firewall`, `network_stage`, `wireless_openwrt`: staging of changes to packages.
  - `firewall_project`, `firewall_zones`, `firewall_iptables`, `firewall_nft`: staging of native rule sets.
  - `firewall_runtime`, `network_runtime`, `network_reconcile`, `network_runtime_stage`: volatile state,
    its record, and the batches that change it and undo the change.
  - `firewall_command`, `transaction`, the `*_execute` modules: the closed set of commands and the
    transactions that run them.
  - `inspection_laws`, `stage_laws`, `number_laws`, `net_laws`, `readback_laws`,
    `firewall_readback_laws`, `wireless_readback_laws`, `uci_laws`, `uci_order_laws`,
    `isolation_laws`, `restore_laws`, `tally_laws`, `recognition_laws`, `save_laws`, `table_laws`,
    `printable_laws`, `runtime_laws`: what holds across functions.
- `tests/` runs the library on concrete values.
- `app/` runs the commands, reads and writes the files, and carries the serialised forms.
