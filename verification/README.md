# bandsnatch

Where a Bandcamp collection downloader keeps its releases, and what one run of
it does, with every function of the library proved against its contract by
[Verus](https://github.com/verus-lang/verus).

- `src/` is the library.
  - `config`, `url_parts`, `storage`, `home`: from an output folder, settings
    and environment to a storage target, its cache file and its object keys.
  - `percent`, `digest`, `headers`, `clock`, `signing`, `requests`: requests to
    an S3 bucket and their signatures (AWS Signature Version 4).
  - `upload`, `staging`: which files of a release are uploaded, under which
    keys, and what a failure does.
  - `run`, `plan`, `job`: which releases a run takes on, its steps, and the
    steps of each release.
  - `laws`: what holds of these together, such as that a staging folder is
    always removed, that the number of workers makes no difference, and that no
    two keys without a slash in front share a request path.
- `app/` is the program around it: command line, file system, network and
  threads. The Bandcamp API and the release cache come in through the traits of
  `services`.
- `tests/` runs the library on concrete values.

The calls into other crates (`chrono`, `hmac`, `percent-encoding`, `rand`,
`reqwest`, `sha2`, `shellexpand`, `url`) stand behind small functions whose
contracts are believed, each with a comment that says what is believed.
