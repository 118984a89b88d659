//! Verified building blocks of the benchmark report plots: the text that labels
//! axes, titles and files, the choice of time unit, the split of a labelled
//! sample into clean points and outliers, and the grouping of comparison curves.
mod text;

pub mod escape;
pub mod labels;
pub mod units;
pub mod outliers;
pub mod colors;
pub mod summary;
pub mod append;
