use vstd::prelude::*;

pub mod secret;
pub mod settings;
pub mod sorting;
pub mod strings;
pub mod svn;
pub mod clock;
pub mod plugin;
pub mod run;
pub mod text;
pub mod vault;
pub mod tools;
pub mod verify;
pub mod version;
pub mod wporg_assets;

verus! {

} // verus!
