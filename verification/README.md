# token_optimizer

A background daemon that compresses the selected text through a local
language model (LM Studio's chat-completions endpoint) when a hotkey is
pressed, and puts the compressed text back into the clipboard.

- `src/` is the verified library:
  - `text`: decimal rendering, Unicode whitespace trimming, splitting,
    ASCII case-insensitive comparison;
  - `config`: the settings, their defaults, and the overlay of a settings
    file on the defaults;
  - `hotkeys`: hotkey descriptions (`F14`, `Alt+C`, `Ctrl+F13`), key names,
    and the listener's modifier state machine;
  - `ai_client`: the endpoint address, the request body, and the text read
    back from the parsed reply;
  - `daemon`: the copy keystrokes, the steps of one compression, and the
    fallback tray icon.
- `app/` is the program around it: the tray icon and message loop, the
  keyboard listener thread, clipboard access, the HTTP request, and reading
  `config.toml`.
