# proxmox_misc

A verified library of three small Proxmox helpers, written in Verus:

- an RFC 5545 iCalendar serializer (`ics_text`, `civil`, `ics`), with the properties of its
  output proved in `ics_laws` and `ics_unfold`: CRLF framing, 75-octet folding on character
  boundaries, one `DTSTAMP` per event, and unfolding that gives back the logical lines;
- the decisions of the Debian major-upgrade checks (`kernel`, `upgrade`, `checks`, `report`,
  `report_lines`): kernel release parsing and suitability, the meta-package version check, the
  repository suite scan, systemd unit states, time synchronisation, the bootloader setup, and
  the level and text of every line the checks report;
- the filter types of the syslog/journal API and the check of the journal priority filter
  (`syslog`).

`app/` holds what runs around the library: the console runner that asks the system and APT,
hands the answers to the library and writes the lines it returns, and the serde forms of the syslog API types.
