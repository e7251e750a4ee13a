//! Plain data carried by the messages between the browser and an embedding
//! controller.

use std::path::PathBuf;
use vstd::prelude::*;

verus! {

#[verifier::external_type_specification]
#[verifier::external_body]
pub struct ExPathBuf(PathBuf);

/// Which position of the window a request asks about.
#[derive(Debug, Clone, Copy, PartialEq, Eq, Structural)]
pub enum PositionType {
    Inner,
    Outer,
}

/// Which size of the window a request asks about.
#[derive(Debug, Clone, Copy, PartialEq, Eq, Structural)]
pub enum SizeType {
    Inner,
    Outer,
}

/// A window icon.
#[derive(Clone, Debug)]
pub struct Icon {
    /// RGBA bytes of the icon.
    pub rgba: Vec<u8>,
    /// Icon width.
    pub width: u32,
    /// Icon height.
    pub height: u32,
}

/// A script to run when a document starts to load.
#[derive(Clone, Debug)]
pub struct UserScript {
    pub script: String,
    pub source_file: Option<PathBuf>,
}

impl From<String> for UserScript {
    /// A script given by its text, with no source file.
    fn from(script: String) -> (s: Self) {
        UserScript { script, source_file: None }
    }
}

impl vstd::std_specs::convert::FromSpecImpl<String> for UserScript {
    open spec fn obeys_from_spec() -> bool {
        true
    }

    open spec fn from_spec(v: String) -> Self {
        UserScript { script: v, source_file: None }
    }
}

} // verus!
