# pabitell

A library for interactive stories. A story is a world of characters, items and
scenes, and a set of events: each event has a condition on the world and a
list of changes that it makes when it is triggered. Players see the events
that can happen now, ordered by the last event that touched their items (the
least recently touched first), and pick one; the world remembers which event
last touched each item.

The library is verified with Verus: every public function states what it
returns or changes, and the laws that tie the functions together are proved.

## Layout

- `src/` — the verified library
  - `world.rs`: items, scenes, characters, the world and its builder, and how
    each is written to and read from JSON
  - `conditions.rs`, `updates.rs`: the checks that make up conditions, and the
    changes that events make
  - `data.rs`, `events.rs`: the kinds of events, triggering them, their
    texts, how they are written, and the key by which they are ordered
  - `narrator.rs`: the events that can be triggered now, in order
  - `laws.rs`: properties that relate several functions (reading back what
    was written, conditions, changes and the checks they make true, the
    clients of a world)
  - `websocket.rs`, `connection.rs`: the clients connected to each world, and
    what one connection does with what its client sends
  - `cli.rs`: the screens of the game on the command line
  - `webapp/`, `books.rs`: the data and decisions behind the players' pages:
    the application's steps (what each message does to its state and which
    actions it asks for, answering other players' requests), the start page,
    the connection to the other players, the list of messages, the code
    scanner, the speech queue and its voices, the cards of the events, and
    the texts and lists the pages are made from
  - `json.rs`, `assoc.rs`, `keyed.rs`, `order.rs`, `text.rs`, `ids.rs`: JSON
    values, lists read as maps, the order of texts, and identifiers
- `tests/` — tests of the library
- `app/` — the parts that talk to the outside world: JSON text, the messages
  of the websocket protocol, the relay server, storage in a database, and the
  game on the command line
