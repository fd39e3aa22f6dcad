//! The promoter: rules that turn what a session left behind into lasting memory.
pub mod a_insight;
pub mod c_habit;
pub mod d_retro;
