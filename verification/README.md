# admin_api

The administration side of a small web-analytics service, as a Verus-verified
library (`src/`) and the program around it (`app/`).

`src/`
- `projects.rs`, `project_routes.rs`: the project table (add, edit and remove
  by key) and the requests on it, with laws on how the operations combine.
- `users.rs`, `user_routes.rs`: the user table (Argon2 password hashes, unique
  logins), login with signed session tokens, and the requests on it.
- `scope.rs`: user scopes and their text form, read back exactly.
- `middleware.rs`: which requests the login check lets through.
- `env.rs`: validation of the configuration taken from the environment.
- `credentials.rs`, `uuid_text.rs`: the calls into `rust-argon2`,
  `jsonwebtoken`, `uuid` and the clock, with their trusted contracts.
- `text.rs`: character-level string helpers.

`app/`: the actix-web server (routes, middleware, RocksDB storage with bincode
records, logging) and the program's `main`.
