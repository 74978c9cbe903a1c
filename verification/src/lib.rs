//! Game rules of a small top-down roguelike: room layout, reward choice and
//! flow, enemy and boss behaviour, combo counting and the co-op / versus
//! session bookkeeping, each stated over plain values and verified.

pub mod states;
pub mod map;
pub mod rewards;
pub mod enemy;
pub mod player;
pub mod pvp;
pub mod coop;
