//! Decoding of raw terminal input. A byte stream is cut into complete event
//! spans by the segmenter (`segment`), which settles the ambiguity of a lone
//! ESC with a flush timeout; each span is then mapped to a typed key, paste
//! or mouse event by the decoder (`decode`). Around that: readable accounts
//! of spans (`describe`), a lighter tokenizer for raw dumps (`token`),
//! session settings (`tui`) and the palette preference (`palette`).

pub mod decode;
pub mod describe;
pub mod palette;
pub mod segment;
pub mod text;
pub mod token;
pub mod tui;

pub use decode::{decode, DecodedEvent, Modifiers, NamedKey};
pub use palette::{detect_terminal_color_preference, Preference};
pub use segment::Segmenter;
pub use tui::{AlternateScreenBackend, ModelInit, TuiApp, TuiAppBuilder, ViewportMode};
