# browser_panel

The logic of an embedded browser panel, verified with Verus.

- `src/text.rs`: whitespace trimming, prefix and membership tests over characters.
- `src/omnibox.rs`: `resolve_omnibox_input`, which turns typed text into an address
  (kept URL, `https://` host, or percent-encoded Google search), with its laws.
- `src/panel.rs`: `BrowserView`, the panel's state and the commands it gives a native
  web view.
- `app/`: the macOS `WKWebView` and a driver that carries out those commands.
