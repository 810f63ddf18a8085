# Golemian

A Discord moderation and community bot (prefix `!`): moderation with
several users per command, giveaways, polls, support tickets, temporary
voice channels, server structure backups, help pages and a few commands
for the bot's owner.

## Layout

- `src/` is the bot's decision logic, written in Verus and verified:
  argument and mention parsing, durations, who a moderation command acts
  on, giveaway creation and draws, poll layout, ticket opening and rights,
  the guild list of the owner, the help pages, the backup file (what it
  holds, how it is written and read back) and what a restore recreates.
  Each public function states its result in its contract; the properties
  that span several functions are proof functions beside them.
- `app/` is the bot itself: the Discord client, the command framework,
  the SQLite database and the timers. It reads events and rows, hands
  plain values to the library, and performs what the library decides.
- `tests/` runs the library on concrete inputs.

The library reaches `chrono`, `rand`, `serenity` and `serde_json` through
a handful of small trusted wrappers, each documented where it stands.

The role map of a restore (old role id to the role recreated from it) is
a `Vec` of pairs with no old id twice, not a `HashMap<String, _>`: with
`String` keys, vstd's specification of `HashMap` lets Verus prove nothing
about a lookup, so the map is kept where its model, a `Map`, can be
proved.
