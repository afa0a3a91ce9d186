//! Istanbul-compatible coverage for instrumented JavaScript: source ranges,
//! per-file coverage maps and the incremental builder the instrumenter fills,
//! coverage summaries and maps of files, the coverage data object and the counter
//! expressions and statements inserted into instrumented code, hint comments, and
//! the plugin's option and path handling.
pub mod text;
pub mod range;
pub mod lookup_range;
pub mod types;
pub mod index_map;
pub mod file_coverage;
pub mod source_coverage;
pub mod percent;
pub mod coverage_summary;
pub mod coverage_map;
pub mod source_map;
pub mod options;
pub mod node;
pub mod hint_comments;
pub mod path;
pub mod coverage_object;
pub mod js_ast;
pub mod increase_expr;
pub mod coverage_fn;
