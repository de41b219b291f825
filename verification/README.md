# alice_games

Two voice-skill games for a webhook platform — twenty-one and "edible or
not" — with the session registry that binds each conversation to its game and
the code that turns a game's answer into the platform's response.

- `src/` is the verified library: JSON values and their model (`json`),
  decimal text (`text`), the webhook request and the response builder
  (`webhook`), the games and the session registry (`session`), and the
  routing of a request (`skill`). Each public function states its result
  exactly; the laws that tie the parts together are public proof functions
  beside them.
- `app/` is the HTTP server: actix actors that run the games and the
  registry, serde forms of the wire messages, and conversions to and from
  `serde_json::Value`.
- `tests/` runs the library on concrete values.
