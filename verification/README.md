# Juno

Backend of a small network monitor: a NetFlow probe, SNMP polling, Nmap
scans and network discovery, a traffic-entropy anomaly monitor, device
pings, alerts (stored, and mailed when critical) and an HTTP API with
Argon2 passwords and session tokens.

## Layout

- `src/` is the library, verified with Verus. It holds the logic:
  - `netflow`: decoding NetFlow v5 datagrams byte by byte; v9 and IPFIX
    go through the `netflow_parser` crate.
  - `nmap`: reading Nmap XML reports (tokenized by `quick_xml`) as a fold
    over their events, device-type inference, CIDR checks and the plan of
    a network discovery.
  - `auth`: Argon2id hashing and checking (through `argon2`), login
    decisions, token claims, the `Authorization` header and the admin role.
  - `alerts`: which alerts are mailed, the mail's text, and the sender and
    recipient addresses (read by `lettre`).
  - `ids`, `ping`: the state machines of the entropy monitor and of device
    pings, with the laws that keep them from repeating alerts.
  - `snmp`, `api`, `db`: configuration values, request parameters and
    query limits.
  - `texto`: the text primitives the parsers use (trimming, splitting,
    decimal numbers), stated over `Seq<char>`.
- `app/` is the program around it: the Actix server, the database
  (`sqlx`), the UDP socket, the `nmap` and `ping` subprocesses, SMTP,
  token signing, and what works with floating point (SNMP percentages,
  the entropy itself). Run as `crear_admin <username> <password> [rol]`,
  it creates a user.
- `tests/` runs the library on concrete inputs.
