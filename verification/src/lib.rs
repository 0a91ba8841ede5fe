//! Verified core of a ProjectLibre-style Gantt planner.
pub mod text;
pub mod calendar;
pub mod history;
pub mod model;
pub mod schedule;
pub mod project;
pub mod outline;
pub mod links;
pub mod export;
pub mod sample;
pub mod icons;
pub mod editing;
pub mod paths;
pub mod import;
pub mod bridge;
