# rtcm2rinex

Conversion of RTCM 2.x / 3.x differential GNSS streams to RINEX files.

- `src/` is the verified library: the MSB-first bit reader, the CRC-24Q
  checks (table and bit-serial), the RTCM 2 and RTCM 3 frame synchronisers and
  message decoders (raw integer fields, MSM4-7 included), the stream context
  that keeps the reference station description and the broadcast
  ephemerides, satellite identifiers, the observations that each MSM cell
  yields and the epoch they are filed under, the observation-type lines of
  RINEX 2 and 3 headers, the grouping and ordering of observation types by
  system, the `GLONASS SLOT / FRQ #` header block, which output files a
  conversion writes and which systems it covers, the name and gzip bytes of
  a compressed output file (the encoding itself is flate2's, behind one
  trusted wrapper), and the RINEX system, file type and observation flag
  codes. MSM
  messages are decoded with the RTCM 3 layout: the header after the message
  number (station, epoch, flags, clock and smoothing fields), satellite and
  signal masks whose first bit stands for number 1, then the satellite and
  cell fields of each flavour. Each public function states its result in its contract; the
  proof functions state the laws that tie functions together (frame
  delivery, CRC round trip, table and bit-serial CRC agreement, identifier
  round trips, ephemeris counting, MSM record counts and mask numbering).
- `app/` is the command-line program around it: file I/O, scaling of the raw
  fields to physical units and filing of the observation values, reading,
  writing and removing the files around compression, the floating-point GNSS models (time, coordinates,
  atmosphere, tides, orbits), the RINEX writers, compression and the C entry
  points.
- `tests/` exercises the library on concrete frames and values.
