# echoes_in_the_fog

The rules of "Echoes in the Fog", a small top-down roguelike, as a verified
library, with the engine program around it.

- `src/` — the library, verified with Verus:
  - `states.rs`: screens and room lock states;
  - `map.rs`: the floor layout (rooms in a row with paired doors), room lookup,
    and the room and hint lines of the heads-up display;
  - `rewards.rs`: the reward pool, the shuffled three-reward offer, the flow
    after a cleared room (victory or next floor), key choice, and what each
    reward grants;
  - `enemy.rs`: enemy movement choice, the charger's phase cycle, the boss's
    phases and attack patterns;
  - `player.rs`: teams, animation priority, combo counting, dash and attack
    decisions;
  - `coop.rs`: the co-op handshake and session link, the client's snapshot
    handling, and the host-address field;
  - `pvp.rs`: versus teams, roles, strikes, lives and the winner.
- `tests/` — tests of the library on concrete values.
- `app/` — the engine program: configuration files, UDP networking, timers,
  the floating-point movement, stat and hit geometry, and the display lines.
  It asks the library for the rules it applies (screen changes, floors,
  rewards, enemy and player decisions, co-op and versus rules); drawing and
  the UI widget tree are not part of it.
