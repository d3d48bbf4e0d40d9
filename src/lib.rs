use vstd::prelude::*;

pub mod asset_loader;
pub mod auth;
pub mod auto_save;
pub mod discord;
pub mod pack_laws;

verus! {

} // verus!
