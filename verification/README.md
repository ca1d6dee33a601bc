# tideline

Tideline's plugin SDK and its first-party plugins (push-to-talk, tones,
notifications, effects), with the decision logic written in Verus and proved
against its contracts.

- `src/` is the verified library: message framing, capability names, the
  push-to-talk bindings, state machine and configuration, the tones and
  notification rules, and the effects plugin's chain state, rack events and
  rendering decisions, audition session, plugin catalog and search folders,
  install hints and audio routing directives. Calls into `uuid`, `base64`
  and a few std functions go through small trusted wrappers whose contracts
  are stated next to them.
- `tests/` runs the library on concrete values.
- `app/` is the unverified shell around it: stdio transport, the host
  client, serde copies of the library's types, files, child processes and
  the plugins' event loops.
