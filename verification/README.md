# netstatus

A holistic view of macOS network status — interfaces, VPN tunnels, DNS
resolvers and split DNS, proxies, Wi-Fi, IP stack, captive portal and
reachability — whose decision logic is written in Verus and proved
against its contracts.

## Layout

- `src/` — the verified library. Each module states what its functions
  return over spec functions and views, and proves it:
  - `interfaces`, `ip_stack`, `ipv4`, `gateway`: interface records, their
    classification by state and addressing, the IP families in use;
  - `vpn`: tunnels, split tunnelling and the subnets routed through them,
    read from a snapshot of the dynamic store;
  - `dns`: resolvers per network service, split DNS, VPN-only domains;
  - `proxy`, `plist`, `json`: typed reads of property lists and of JSON
    documents parsed with serde_json;
  - `wifi`: the Wi-Fi report and the radio fields;
  - `captive_portal`, `probes`: classification of probe outcomes;
  - `status`: connection confidence and the streaming accumulator
    (`PartialStatus`), with the laws that tie them together;
  - `watch`: the decisions of the watch loop (what each trigger fires,
    the poll interval, health, which check's results are passed on);
  - `tui`, `site`, `text`, `cli`: the dashboard's panel texts, key
    bindings and interface order, the project page, verified text
    helpers, the command set.
- `tests/` — tests of the library on concrete values.
- `app/` — the `netcheck` program: the system queries, the probes, the
  threads, the terminal drawing, and the JSON wire format (copies of the
  library's types carrying serde's and schemars' derives). The
  decisions it acts on come from the library; what it decides itself is
  scheduling: which probes run on which thread, and when.
