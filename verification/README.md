# pypi_index

A package index for Python. It serves the files of one directory in the way that `pip` expects, takes
uploads in the way that `twine` makes them, and passes the projects on a list on to a public index.

- `src/` is the library: what file names and metadata mean, what the index answers, who is let in, what an
  upload form holds, and when a failed push is tried again. Every function carries a contract that Verus
  proves. What the library has from other crates (regular expressions, archives, digests, JSON, Base64,
  signed tokens) stands behind wrappers whose contracts say what is taken for granted.
- `tests/` runs the library with those crates.
- `app/` is the server around it: web routes, files, cookies and the message broker.

The server is configured by the environment: `PACKAGES_DIR`, `PUBLIC_BASE_URL`, `JWT_SECRET`,
`IAM_LOGIN_URL`, `DEBUG`, `SYNC_PACKAGES`, `RABBITMQ_URI`, `REPOSITORY_URL`, `TWINE_USERNAME` and
`TWINE_PASSWORD`.
