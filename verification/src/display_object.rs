//! Display objects: their common state, the movie clip timeline, the
//! display list and the placements that change it, gotos, preloading, and
//! video players.

pub mod base;
pub mod display_list;
pub mod goto;
pub mod movie_clip;
pub mod preload;
pub mod video;
