# discord_bot

A Discord music bot. The library in `src/` holds, verified with Verus, what
the bot decides and computes: how chat messages are split into command words
(`string_to_vec`, `string_to_vector`, `strings`), the queue and track
messages (`queue`), playlists (`playlist`), where a track is looked up
(`sources`), the lyrics title and the cutting of lyrics into messages
(`lyrics`), the command texts (`commands`, `message`, `utils`), and the voice
commands as a state machine (`music_bot`).

`app/` connects it to Discord (serenity), voice (songbird), Spotify
(rspotify) and Genius: it runs the state machine, performs the network and
voice operations, and sends the messages the library prepares.
