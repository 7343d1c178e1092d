//! Strongly-typed, cross-platform path handling.
//!
//! A path written in either Unix or Windows syntax is parsed, normalized
//! into a canonical in-memory form, validated against portable filesystem
//! rules, and exposed through wrapper types that distinguish absolute vs.
//! relative and folder vs. file paths.

pub mod chars;
pub mod display;
pub mod drive;
pub mod error;
pub mod expand;
pub mod fs;
pub mod inner;
pub mod laws;
pub mod ops;
pub mod paths_long;
pub mod paths_short;
pub mod platform;
pub mod resolve;
pub mod segiter;
pub mod strutil;

pub use drive::{current_drive, has_drive, win_drive, windows_drive, Drive};
pub use error::PathError;
pub use inner::PathInner;
pub use paths_long::{
    AbsoluteFilePath, AbsoluteFolderPath, AbsolutePath, AnyFilePath, AnyFolderPath, AnyPath,
    ConcretePath, RelativeFilePath, RelativeFolderPath, RelativePath,
};
pub use paths_short::{AbsDir, AbsFile, AbsPath, AnyDir, AnyFile, RelDir, RelFile, RelPath};
pub use platform::{Os, Platform};
pub use segiter::{Extensions, InnerSegmentIter, Segments};
pub use strutil::{chars_of, string_of};
