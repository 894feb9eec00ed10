# ai_bot

The logic of a desktop group chat in which several AI bots, each with its own
persona, answer the user. After each user message a router (an agent call)
picks at most three bots to speak; each writes its reply in parallel, may stay
silent with `NO_REPLY`, and its reply is shown after a short typing pause.

`src/` is the verified library:

- `routing`: finding the JSON object in the router's reply, the order of the
  router's agent runs, resolving bots by id or nickname, picking the
  speakers, and the fallback to a single bot.
- `orchestrator`: history text, reply and routing prompts, silence markers,
  the other speakers each bot is shown, and the messages and events of a turn.
- `reply`: one bot's reply as a step function: agent runs and fallback,
  session ids, silence, typing pause, stored message and events.
- `cursor`: the agent's command line, its JSON event stream, its results and
  the status check.
- `store`: names, defaults, validation and recall rules of the stored data.
- `turns`: the reply turn in flight per group, and its cancellation.
- `text`, `json`, `models`, `ids`: string operations, JSON values, data
  types, fresh ids and time.

`app/` holds the Tauri commands, the SQLite store, the process runner and the
async orchestration around the library; serde decodes the router's JSON
object there.
