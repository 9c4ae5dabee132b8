# zigbee_mac

An IEEE 802.15.4 MAC layer for a ZigBee coordinator that talks to a CC2531
radio over a serial link, written in Verus: the library's logic is stated in
`requires` / `ensures` contracts and proved.

## Layout

- `src/` — the verified library.
  - `ieee802154/` — addresses, the PIB, the MAC and its service primitives:
    - `mac/frame.rs`, `mac/commands.rs` — MAC frames and commands, their
      encoding and decoding, with the round trip proved.
    - `mac/pendingtable.rs`, `mac/combinedpendingtable.rs` — the host's copy
      of the radio's pending-data tables.
    - `mac/devicequeue.rs`, `mac/data.rs` — the per-destination queues and
      the data service that polls them.
    - `mac/queue.rs`, `mac/device_queue.rs` — an alternative queue and a
      per-device state machine.
    - `mac/management.rs` — MLME requests and management frames.
    - `mac/service.rs` — the MAC's state and what each radio response, MLME
      request and MCPS data request does to it.
    - `mac_frame.rs` — a stand-alone MAC frame parser.
  - `coordinator.rs` — the coordinator's decisions: the requests that start
    the PAN and the answers to beacon and association requests.
  - `radio/`, `radio_bridge/` — the radio's message formats and request
    encodings.
  - `pack/`, `parse_serialize.rs` — byte encodings.
  - `mru_set.rs`, `tokenmap.rs`, `map_update.rs`, `waker_store.rs`, ... —
    small containers the rest is built on.
- `tests/` — tests run against the compiled library.
- `app/` — the program: the serial link, the tasks that perform the MAC's and
  the coordinator's requests, and the pcap capture.
