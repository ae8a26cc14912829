# dab_radio

The backend of a DAB+ digital radio service for Australian Band III, with its
logic verified in Verus.

- `src/` is the verified library:
  - `dsp/`: CRC-16/CCITT (with its residue law), fire code check, energy
    dispersal (PRBS), the Viterbi decoder (proved to invert the rate 1/4
    convolutional code and to correct a single flipped symbol), the audio
    super frame decoder state machine, the SDR device model, FIG parsing and
    the Australian ensemble tables, and the integer side of the scanner
    (block planning for later passes, stations from an ensemble).
  - `services/`: the station registry (unique ids and broadcasts, sorted
    listing, metadata and dynamic labels, pruning), the DLS and SLS (MOT)
    parsers, the bounded log.
  - `streaming/`: the bounded audio frame buffer over a `crossbeam_channel`
    channel and the streaming WAV header.
  - `casting/`: the AirPlay and Chromecast device managers.
  - `system/`: the installer checks and the dependency manager's verdicts.
  - `api/`: the decisions of the HTTP and WebSocket handlers: station ids
    read from request paths, client messages read as JSON, the scan pass
    cap.
  - `text.rs`: trimming, searching, byte order and line splitting of text.
- `app/` is the server around it: actix-web routes and replies, WebSocket sessions,
  mDNS discovery, process and file probes, and the floating-point signal
  analysis, test tones and scan loop.
- `tests/` runs the library on concrete values.
