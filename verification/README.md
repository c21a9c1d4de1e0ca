# jetson-discord-bot

A Discord assistant backed by a local llama.cpp server, with its message
handling written in Verus and proved against its contracts.

- `src/` is the verified library: reading the configuration from environment
  pairs, deciding when a channel message is addressed to the bot, assembling
  prompts (channel context, memory summary, web context, attachments),
  classifying and budgeting attachments, redacting secrets before they reach
  the memory logs, reading search results and linked pages, building requests
  for the model server and planning development-sandbox steps.
- `src/` calls `base64`, `url` and `scraper` through a few trusted wrappers,
  each documented where it is declared.
- `app/` is the program around it: environment and files, the Discord client,
  HTTP calls, the Podman process and JSON (de)serialisation.
- `tests/` holds the executable tests of the library.
