//! Statistics over meshes written in the ASCII STL format.
//!
//! The crate scans a line-split STL text for `facet` markers, extracts the
//! three vertex lines of each facet block, and counts the facets.  Vertex
//! coordinates are kept as their raw numeric tokens: turning them into
//! machine floating point, and summing triangle areas, is left to callers,
//! since this crate holds no floating-point code.

pub mod mesh;
pub mod numeric;
pub mod report;
pub mod text;
pub mod triangle;

pub use mesh::{process_stl, facet_scan, line_views, facet_views, ParseError, StlStats};
pub use numeric::{is_numeric_token, numeric_token, NumState};
pub use report::{dec_digits, u32_decimal};
pub use text::{is_facet_marker, facet_marker, tokens_from, split_tokens, str_views};
pub use triangle::{parse_vertex, vertex_ok, vertex_view, triangle_view, StlTriangle, StlVector};
