//! Parsers, text utilities and rule tables of the sebastian diagram renderer,
//! with their behaviour stated as Verus contracts.

pub mod config;
pub mod css;
pub mod edges;
pub mod handdrawn;
pub mod keyed;
pub mod markers;
pub mod raster;
pub mod render;
pub mod requirement;
pub mod sankey;
pub mod sequence;
pub mod shapes;
pub mod strs;
pub mod svg;
pub mod system_chart;
pub mod text;
pub mod themed_css;
pub mod timeline;
pub mod treemap;
pub mod xychart;
