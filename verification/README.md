# mysql_udf_http

A MySQL user-defined function library that calls HTTP services (`empty_call`-style
UDFs returning a JSON object with the response's content type, status, headers and
body) and relays WebSocket traffic over sockets handed to the database.

- `src/` is the verified library: reading UDF arguments (`args`), planning a
  request — address, headers from a JSON object, method, proxy, body, multipart
  parts (`request`), framing the answer as JSON (`response`, `json`), reading
  socket return values and relay steps (`socket`), the SOCKS5 handshake bytes
  (`socks5`) and decimal rendering (`text`).
- `app/` registers the UDFs, sends requests with reqwest, runs the relay with
  tokio and tungstenite, and holds a small SOCKS5 proxy and a WebSocket echo demo.
- `tests/` exercises the library on concrete values.
