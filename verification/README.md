# pyspector

The supply-chain scanner and the scan endpoint of PySpector, with the
scanning logic verified by Verus.

- `src/` is the verified library:
  - `text`: character-level text handling (white space, trimming, search, splitting);
  - `requirements`: `requirements.txt` lines and PEP 508 requirement strings;
  - `toml_value`, `manifest`: the parsed TOML manifests (`pyproject.toml`,
    `Pipfile`, `Cargo.toml`) and the dependencies they pin;
  - `osv`: OSV vulnerability records, the fixed version, the severity label;
  - `cvss`: CVSS v3 vectors and the weights of their metrics;
  - `matches`: one query per package version, and the matches reported;
  - `scan_api`: the decisions of the `/scan` endpoint.
- `app/` is the server and the I/O around the library: the directory walk,
  file reads, TOML and JSON decoding, OSV requests, the CVSS floating-point
  formula, git, and the Python pipeline.
- `tests/` exercises the library on concrete values.
