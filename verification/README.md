# microtak-admin-cli

Command-line administration for a MicroTAK server (device enrollment,
enrollment invite tokens, password accounts, mission roles), built around a
library whose logic is verified with Verus.

- `src/` — the verified library:
  - `cli` — the commands and arguments as plain data;
  - `client` — path-segment percent-encoding (with its round-trip law),
    admin/mission endpoint URLs, the JSON request bodies, the
    `--resolve HOST:PORT:ADDRESS` split, the roles-order check,
    reply status and body interpretation, and the API's records;
  - `enroll` — the enrollment URL, the token filter, PEM armoring of the
    signed certificate, and the CSR built with `rcgen`;
  - `qr` — the enrollment QR payload and its encodings via `qrcode`;
  - `pdf` — handout text and the QR code rasterized as a grayscale bitmap;
  - `report` — token/account tables, mission summaries, timestamps (via
    `time`), the clock, and command confirmations;
  - `error`, `text` — the error type with its messages, and string helpers.
- `app/` — the executable: argument parsing (clap), HTTP over mutual TLS
  (reqwest, tokio), file output and PDF layout (genpdf, image).

The handout PDF embeds Liberation Sans; the font files
(`LiberationSans-{Regular,Bold,Italic,BoldItalic}.ttf`) are read from the
directory named by `MICROTAK_ADMIN_FONT_DIR` (default `assets/fonts`).
