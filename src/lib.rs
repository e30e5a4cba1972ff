pub mod cells;
pub mod history;
pub mod laws;
pub mod life;
