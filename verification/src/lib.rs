//! A small text-formatting engine for constrained targets: typed directives,
//! bounded numeric conversion and padded output into a caller-supplied sink.
//!
//! A template such as `"{:>8} = {:#06x}"` is split into pieces by
//! [`parser::parse`]; [`render::render`] writes the pieces with their values
//! through a [`Formatter`] into any sink that implements [`uWrite`]. The
//! numbers are turned into text in a [`Convert`] buffer of fixed capacity,
//! and [`Formatter::write_padded`] places a text in its field. Nothing here
//! allocates on the way from a value to the sink, and nothing panics.
//!
//! Every function states what it writes as a sequence of characters:
//!
//! - [`digits`] says what the numeral of a number is, and that reading it
//!   gives the number back;
//! - [`padding`] says where the fill of a field goes;
//! - [`float`] says how a binary floating-point number is rounded to its
//!   decimal places;
//! - [`parser`] says what the pieces of a template are;
//! - [`render`] says what text a template and its values stand for.

pub mod digits;
pub mod sink;
pub mod padding;
pub mod formatter;
pub mod convert;
pub mod integer;
pub mod float;
pub mod traits;
pub mod debug;
pub mod text;
pub mod numbers;
pub mod parser;
pub mod render;

pub use convert::Convert;
pub use debug::{debug_string, uDebug};
pub use float::{Float32, Float64};
pub use formatter::Formatter;
pub use padding::Padding;
pub use parser::{Alignment, Piece};
pub use render::{uformat, uwrite, uwriteln, Argument, ArgumentError, FormatError};
pub use sink::{uWrite, BoundedString, CapacityError};
pub use traits::{uDisplay, uDisplayFloat, uDisplayFormatted, uDisplayHex, uDisplayPadded};
