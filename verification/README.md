# bluer-ble-peripheral

A Bluetooth LE peripheral on top of BlueZ, with its decisions verified by Verus.

- `src/` is the verified library. It works out what to publish for the GATT services that an
  application describes, what to advertise for a payload, how requests of clients are passed on
  and answered, and how the event loop between them acts. It sends nothing itself: it returns
  what is to be sent, or done.
- `app/` runs the library on a Bluetooth adapter, with `bluer` and `tokio`.
- `tests/` holds the tests of the library.

| Module | Holds |
| --- | --- |
| `application_factory` | services as they are published, and the handles of their attributes |
| `advertiser`, `advertisement`, `byte_reader` | advertising payloads and what BlueZ takes for them |
| `peripheral`, `event` | the configuration of a server, and its event loop |
| `handlers`, `responder`, `writer`, `att_error` | requests, answers and notifications |
| `descriptors`, `gatt`, `uuid_util`, `connection`, `device_ident`, `handle`, `err_util` | the types they share |
