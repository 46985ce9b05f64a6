pub mod laws;
pub mod state;
pub mod stratified;
pub mod tables;
