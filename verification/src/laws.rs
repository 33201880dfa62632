//! What holds of the operations, whatever they are given: each law speaks of columns, settings and
//! outcomes, and not of how these come about.

pub mod asking;
pub mod checking;
pub mod choosing;
pub mod columns;
pub mod evolving;
pub mod settings;
pub mod texts;
pub mod updating;
pub mod views;
pub mod worker;
