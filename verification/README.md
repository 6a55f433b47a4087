# rmqtt_things

The request-handling logic of an IoT thing-model platform built on the
RMQTT broker, written in Verus: the checks and decisions of its HTTP
endpoints and broker webhooks are executable functions whose contracts
Verus proves. Calls into outside crates stand behind small trusted
functions; the storage, cache and broker I/O around the decisions is not
part of this crate.

## Layout

- `src/` — the verified library.
  - `text.rs`, `json.rs`: characters, decimal numerals, splitting and
    trimming; JSON documents and their meaning (objects as maps, the last
    duplicate key winning).
  - `error.rs`, `utils.rs`: the API error and identifier validation.
  - `handlers.rs`: device webhooks — upload directory rules, device identity,
    service replies, subscriptions, report checks.
  - `admin_handlers.rs`, `admin_models.rs`, `shadow.rs`: admin endpoints,
    file keys, validation-template cache keys, and the device shadow delta.
  - `alarm_models.rs`, `alarm_handlers.rs`: alarm rule validation and the
    alarm life cycle.
  - `auth_handlers.rs`: broker ACL, signed device passwords (HMAC-SHA1) and
    admission.
  - `oauth.rs`: sign-in helpers — cookies, PKCE, return addresses.
  - `middleware.rs`, `factory_middleware.rs`: admin permissions, the
    identity service's answer, the internal-network and API-key gates.
  - `schema.rs`: JSON Schema checks of templates and reports (jsonschema).
  - `clock.rs`: the current time, for password and certificate checks.
  - `factory_handlers.rs`, `ota_handlers.rs`, `ca_handlers.rs`,
    `product_handlers.rs`, `openapi.rs`: the remaining endpoints' checks,
    including the OTA upgrade push.
- `tests/` — tests of the library on concrete values.
- `app/` — the axum handlers of the health, sign-in and broker access
  routes, the middleware around the library's gates, serde copies of its
  types, and the calls to the identity service.

Calls into outside crates (hmac, sha1, sha2, hex, base64, rand, uuid, time,
constant_time_eq, jsonschema, and reqwest and axum for URL
parsing and header values) stand behind small trusted
functions whose contracts say what those crates document.
