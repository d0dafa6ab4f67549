//! Fixing Korean file names that come from macOS.
//!
//! macOS keeps Hangul in decomposed jamo (Unicode form D), while Windows, Linux and
//! most archive tools expect precomposed syllables (form C). This library decides how
//! the entries of a tree are renamed to form C in place, and under which names the
//! entries of a folder go into an archive that other systems can read.
//!
//! Nothing here touches the file system. `RenameRun`, `ZipRun` and `FolderJob` take
//! what their caller met there, one event at a time, and answer with what is to be
//! done next.
//!
//! - `text`: names, and their form C
//! - `paths`: paths as sequences of components, and where an archive goes
//! - `rename`, `rename_laws`, `tree_laws`: renaming the entries of a tree
//! - `archive`, `archive_laws`: the entries of an archive
//! - `process`: both in turn, for the desktop application
//! - `walk`: how the trees are walked
//! - `report`: the lines that the commands print
pub mod archive;
pub mod archive_laws;
pub mod paths;
pub mod process;
pub mod rename;
pub mod rename_laws;
pub mod report;
pub mod text;
pub mod tree_laws;
pub mod walk;

pub use archive::{ZipOptions, ZipRun, ZipStats};
pub use paths::default_output_for;
pub use process::FolderJob;
pub use rename::{RenameRun, RenameStats};
