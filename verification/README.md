# caustic

Verified decision logic of the Caustic OS installer and over-the-air
updater, written in Verus.

- `src/` is the library. Every function there carries a contract that
  Verus proves: release-tag parsing and ordering, the installer's state
  machine (`installer`, `installer_view`), disk filtering for Linux,
  macOS and Windows, flashing helpers, checksum and signature checks,
  A/B slot selection, the order of an update (`ota_flow`) and of writing
  the inactive slot (`apply_flow`). Calls into `sha2`, `sigstore`,
  `oci-client`, `plist` and `serde_json` go through small trusted
  wrappers whose contracts say what the library relies on.
- `app/` is the program around it: the update daemon (`check`, `update`,
  `factory-reset`) and a window-less run of the installer (`install`). It
  performs the I/O each state machine asks for and hands back the outcome.
- `tests/` exercises the library on concrete values.
