pub mod color;
pub mod combat;
pub mod constants;
pub mod death_callback;
pub mod dungeon;
pub mod enemy;
pub mod equipment;
pub mod fighter;
pub mod game;
pub mod inventory;
pub mod messages;
pub mod object;
pub mod player;
pub mod random;
pub mod rect;
pub mod text;
pub mod tile;
pub mod transition;
pub mod turn;
pub mod ui;
pub mod visibility;
