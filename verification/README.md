# media_manager

A media-library manager for Jellyfin-style movie folders: it scans library
roots, indexes media files, proposes canonical `Movie Name (Year)` renames,
finds duplicates, writes per-item `.mm.json` sidecars through a
dry-run / approve / apply / rollback workflow, and keeps an audit log and a
job queue.

The crate is written in Verus. Its decisions are verified against
requires/ensures contracts; the HTTP service around them is ordinary Rust.

## Layout

- `src/` — the verified library.
  - `text`, `paths`, `order` — characters, path components and a text order
    with their specifications.
  - `naming`, `display`, `metadata`, `rename`, `family` — reading titles,
    years and provider ids from file, folder and NFO names, and planning
    renames of a media file and the files that belong to it.
  - `duplicates`, `consolidation` — duplicate keys, groups, episode buckets
    and quarantine decisions.
  - `domain`, `sidecar_store`, `sidecar_workflow`, `fs_rollback` — the
    sidecar document, plans, applies and the rollbacks that undo them.
  - `bulk` — previews, their batch hash and apply steps of bulk actions.
  - `fingerprint` — what the plan, preview and local-id hashes feed the
    default hasher, in the machine's byte order.
  - `probe` — stream summaries and the SHA-256 content hash of media files.
  - `scanner`, `preflight`, `toolchain`, `path_policy`, `auth`, `config`,
    `queries`, `jobs`, `operations`, `stores`, `golden_state`, `ids`
    — listings, readiness, access, settings, queue and log rules.
- `tests/` — tests of the library's public functions.
- `app/` — the axum service: routes, SQLite stores, file-system effects
  (reading files for the content hash among them), the ffprobe process and
  JSON, with serializable copies of the library's types.

## Configuration

`MM_HOST`, `MM_PORT`, `MM_LIBRARY_ROOTS` (colon-separated), `MM_STATE_DIR`,
`MM_AUDIT_DB_PATH`, `MM_API_TOKEN`, `MM_BRANDING_*`, `MM_FFMPEG_PATH`,
`MM_FFPROBE_PATH`, `MM_MEDIAINFO_PATH`.
