//! Game logic of a Catan-style table client: the rules every table size
//! plays by, the protocol values exchanged with the server, the board's
//! geometry and placement rules, the end-of-game statistics, and the
//! client's model of the game as messages arrive.

pub mod rules;
pub mod text;
pub mod stats;
pub mod protocol;
pub mod board;
pub mod client;
pub mod lists;
pub mod trades;
pub mod payout;
pub mod narration;
pub mod events;
pub mod banklog;
pub mod dispatch;
pub mod hand;
pub mod art;
pub mod logtext;
pub mod controls;
pub mod charts;
pub mod laws;
pub mod readback;
pub mod lobby;
pub mod bids;
pub mod flight;
