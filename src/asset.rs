//! Files of the site that pages link to: stylesheets and scripts.

use vstd::prelude::*;

use crate::paths::{extension, extension_of, same_text};

verus! {

/// What an asset is, as told by its file extension.
#[derive(Debug, Clone, Copy, PartialEq, Eq, Hash, Structural)]
pub enum AssetType {
    Css,
    Js,
    Other,
}

/// A file of the site, by its path relative to the asset root.
#[derive(Debug, Clone, PartialEq, Eq, Hash)]
pub struct Asset {
    path: String,
    asset_type: AssetType,
}

/// The kind of asset that a path names: `css` and `js` files are
/// stylesheets and scripts, anything else (no extension included) is other.
pub open spec fn asset_type_of(p: Seq<char>) -> AssetType {
    match extension_of(p) {
        Some(e) => if e == "css"@ {
            AssetType::Css
        } else if e == "js"@ {
            AssetType::Js
        } else {
            AssetType::Other
        },
        None => AssetType::Other,
    }
}

impl Asset {
    pub fn new(path: String, asset_type: AssetType) -> (r: Self)
        ensures
            r.spec_path() == path@,
            r.spec_asset_type() == asset_type,
    {
        Self { path, asset_type }
    }

    pub closed spec fn spec_path(&self) -> Seq<char> {
        self.path@
    }

    pub closed spec fn spec_asset_type(&self) -> AssetType {
        self.asset_type
    }

    pub fn path(&self) -> (r: &String)
        ensures
            r@ == self.spec_path(),
    {
        &self.path
    }

    pub fn asset_type(&self) -> (r: &AssetType)
        ensures
            *r == self.spec_asset_type(),
    {
        &self.asset_type
    }
}

impl AssetType {
    /// Classifies a path by its extension.
    pub fn guess(path: &str) -> (r: AssetType)
        ensures
            r == asset_type_of(path@),
    {
        match extension(path) {
            Some(e) => {
                if same_text(e.as_str(), "css") {
                    AssetType::Css
                } else if same_text(e.as_str(), "js") {
                    AssetType::Js
                } else {
                    AssetType::Other
                }
            },
            None => AssetType::Other,
        }
    }
}

} // verus!
