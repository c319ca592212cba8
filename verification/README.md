# rshunterbtt

An MQTT/BLE bridge for Hunter BTT Bluetooth tap timers, with its decision
logic verified by Verus.

- `src/` is the verified library:
  - `protocol` — the `ff82` / `ff83` / `ff86` payload codecs, the zone-state
    enum, zone-name decoding and the characteristic UUID scheme;
  - `command` — what a zone command writes, how an MQTT request is
    dispatched, the status cache, the status response fields, valve
    transitions, the reconnect backoff and the password buffer;
  - `resilience` — the escalation ladder (backoff, adapter power-cycle, host
    reboot) with its rate limits, proved over whole runs of failures and
    successes, and the state file's location;
  - `supervisor` — how the connection supervisor answers a failed or
    successful setup;
  - `hci`, `hci_monitor` — HCI framing for `LE Connection Update`, its
    retry loop, the monitor-channel decoding and the interval guard;
  - `config` — the configuration built from environment variables;
  - `ble`, `dbus_control` — the scan-error rule and the adapter controller.
- `app/` is the service around it: BLE over btleplug, MQTT over rumqttc,
  InfluxDB, D-Bus, raw HCI sockets, the state file and the async loops.
- `tests/` exercises the library on concrete values.
