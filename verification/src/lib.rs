//! Game-tree search strategies for a two-player, zero-sum, perfect-information
//! game: greedy one-ply lookahead, negamax, alpha-beta pruning, principal
//! variation search, a chunked negamax, and iterative-deepening drivers that
//! publish their running answer into a single-slot channel.
//!
//! Every strategy is specified against one mathematical model, the negamax
//! value of a position at a given depth, defined in `model`.

pub mod game;
pub mod model;
pub mod slot;
pub mod greedy;
pub mod minmax;
pub mod alphabeta;
pub mod negascout;
pub mod parallelminmax;
pub mod strategy;
