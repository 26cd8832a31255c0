//! `lowfat plugin ...`: listing, inspecting, checking, scaffolding and
//! benchmarking community plugins.
pub mod bench;
pub mod catalog;
pub mod doctor;
pub mod lf;
pub mod scaffold;
