//! The device commands.
pub mod fields;
pub mod qid;
pub mod qmod;
pub mod qpi;
pub mod qpigs;
pub mod qpiri;
pub mod qpiws;
pub mod qvfw;
pub mod qvfw2;
