pub mod comments;
pub mod file_shape;
pub mod shape;
pub mod symbol_at_line;
pub mod tailwind;
pub mod find_usages;
pub mod rust_shape;
pub mod script_shape;
pub mod haskell_shape;
pub mod typed_shape;
pub mod html;
pub mod css;
pub mod calls;
pub mod call_graph;
pub mod graph_laws;
pub mod shape_laws;
pub mod edit_context;
pub mod code_map;
pub mod dependencies;
pub mod resolve;
pub mod resolve_laws;
pub mod templates;
pub mod compact_map;
pub mod budget;
pub mod order_laws;
pub mod usage_laws;
pub mod candidate_laws;
pub mod scope_laws;
