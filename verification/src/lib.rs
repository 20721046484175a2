//! A small library for sorting the files of a directory into fixed
//! category subdirectories, chosen by file-name extension.
//!
//! The library holds the pure logic of that job: the extension
//! classifier, the computation of relocation paths, the selection and
//! ordering of the entries a bootstrap pass migrates, the mapping of
//! copy/delete outcomes to errors, and the decision which watch events
//! trigger a relocation. The filesystem work itself (listing, copying,
//! deleting, subscribing to change notifications) is left to the caller,
//! who hands plain values in and carries the returned plans out.

pub mod bootstrap;
pub mod classify;
pub mod helpers;
pub mod text;
pub mod types;
pub mod watch;

pub use classify::get_media_type;
pub use helpers::get_new_file_path;
pub use helpers::move_file_outcome;
pub use types::FileType;
pub use types::HermanErrors;
