# yomiage_mon

A Discord bot that reads the messages of muted members aloud in a voice
channel, with the speech of a VOICEVOX engine.

- `src/` is the verified library: the registry of subscribed text channels
  (`subscriptions`), the decisions taken on a message and on a voice state
  change (`event_handler`), the replies and effects of the commands
  (`commands::zunda`), the URLs of the speech engine, the `ffmpeg` command
  line and the audio types (`voice`), and decimal formatting (`text`).
- `app/` is the bot around it: the gateway client, the command framework,
  HTTP requests, the `ffmpeg` process and the voice connection.
- `tests/` runs the library on concrete values.
