use vstd::prelude::*;

verus! {

/// A request to the thread that keeps the Discord rich presence up to date.
pub enum DiscordThreadMessage {
    /// Send the current presence again.
    Update,
    /// Change the presence's state text, then send it.
    SetState(String),
}

} // verus!
