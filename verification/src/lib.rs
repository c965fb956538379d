//! Atars: a two-player territory game on a 7x7 board, with a greedy
//! computer opponent.
//!
//! A move either clones a piece onto a neighbouring empty square or jumps it
//! two squares away; afterwards every opposing piece next to the destination
//! changes colour. The modules are layered leaves first:
//!
//! * [`piece`], [`position`], [`moves`]: the two colours, board coordinates
//!   and their scan order, moves;
//! * [`seq_facts`]: facts about filtered sequences;
//! * [`grid`]: the board as a sequence of 49 cells, every operation on it as
//!   a function of that sequence, and the laws of these functions;
//! * [`board`]: the board itself, its queries and its mutation;
//! * [`game`]: a board plus whose turn it is, and the legality check;
//! * [`ai`]: the one-ply move chooser;
//! * [`gui`]: what a click on a square selects or plays.
//!
//! Every executable function carries a contract over the mathematical model
//! of its arguments: a board is a sequence of 49 optional pieces, and each
//! query is a function of that sequence.

pub mod piece;
pub mod position;
pub mod seq_facts;
pub mod moves;
pub mod grid;
pub mod board;
pub mod game;
pub mod ai;
pub mod gui;
