pub mod baseintegrator;
pub mod directlighting;
pub mod testintegrator;
