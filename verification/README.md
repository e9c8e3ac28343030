# doctor_git

A git post-commit helper: after each commit it sends the diff to a local
Ollama model, asks whether the commit adds a feature, and when it does,
records the feature as an achievement in a small SQLite database and shows a
pop-up window with its title.

The decisions and text handling live in `src/` and are verified with Verus:

- `text` — UTF-8 byte lengths, `trim`, `lines`, substring search over `char`
  sequences, with the meaning `str` gives them;
- `diff` — when a diff is worth analysing, and how it is cut at whole lines to
  about 4000 bytes;
- `ollama` — the server settings, the chat request body, what a reply means,
  and the command that downloads a missing model;
- `achievement` — how the model's answer is cleaned into a title, and when the
  title is an achievement;
- `cli` — the mode the arguments select, the pop-up's title, the post-commit
  hook script, and where the pop-up is placed;
- `conquest` — the database row of an achievement;
- `json` — the `serde_json` calls the other modules make.

`app/` holds the program around it: running `git`, the HTTP request, the
database, starting processes, and the Tauri window.
