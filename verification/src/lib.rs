//! Verified core logic of the Organoids ecosystem viewer: interface state
//! transitions, the species ledger and journal, the chronicle with its
//! census, event list and tooltips, taxonomy naming, menu settings, sound
//! scheduling, wake trails, image caches and integer mesh/raster helpers.
#![allow(unused_imports)]

pub mod audio;
pub mod census;
mod chance;
pub mod chronicle;
pub mod event_list;
pub mod genes;
pub mod highlight;
pub mod image_cache;
pub mod journal;
pub mod ledger;
pub mod menu;
pub mod raster;
pub mod mesh;
pub mod taxonomy;
pub mod text;
pub mod tooltips;
pub mod ui_state;
pub mod wakes;
