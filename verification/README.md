# pashari

The logic of a Windows screenshot and screen-recording tool, written in
Verus: the functions in `src/` carry contracts that Verus proves, apart
from a few small trusted wrappers around outside crates.

- `src/` — the verified library: capture geometry and frame pacing
  (`geometry`, `capture`), MP4 audio-track removal (`mp4`), filename
  templates (`filename`), the settings window's fields and layouts
  (`settings`, `textfield`), window snapping (`snap`), session history
  (`session`), configuration rendering (`store`), the update check
  (`update`), hotkey strings (`hotkey`, `localkey`), toolbar icons
  (`icons`) and PNG export (`export`).
- `tests/` — tests run against the compiled library.
- `app/` — file, network and clipboard I/O around the library, and the
  serde shapes of the configuration files.

Calls into `chrono`, `image`, `serde_json` and `global-hotkey` (and two
std conversions) stand behind trusted wrappers marked
`#[verifier::external_body]`; their contracts say when the call succeeds
and name what it returns as a function of its arguments.
