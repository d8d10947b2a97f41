//! The dialog identifier: the key under which one outstanding exchange is
//! registered.

use vstd::prelude::*;
use vstd::std_specs::cmp::PartialEqSpecImpl;

verus! {

/// Names one outstanding request or dialog: the device, the channel (or other
/// resource) on it, and the protocol key of the dialog (call-id and sequence,
/// or a synthesized key for a request that opens no dialog yet).
#[derive(Debug)]
pub struct Ident {
    pub device_id: String,
    pub channel_id: String,
    pub dialog_key: String,
}

/// What an [`Ident`] denotes: its three components as character sequences.
pub ghost struct IdentView {
    pub device_id: Seq<char>,
    pub channel_id: Seq<char>,
    pub dialog_key: Seq<char>,
}

impl View for Ident {
    type V = IdentView;

    open spec fn view(&self) -> IdentView {
        IdentView {
            device_id: self.device_id@,
            channel_id: self.channel_id@,
            dialog_key: self.dialog_key@,
        }
    }
}

impl Ident {
    /// Builds an identifier from its three components.
    pub fn new(device_id: String, channel_id: String, dialog_key: String) -> (id: Ident)
        ensures
            id@.device_id == device_id@,
            id@.channel_id == channel_id@,
            id@.dialog_key == dialog_key@,
    {
        Ident { device_id, channel_id, dialog_key }
    }
}

impl Clone for Ident {
    fn clone(&self) -> (id: Ident)
        ensures
            id@ == self@,
    {
        Ident {
            device_id: self.device_id.clone(),
            channel_id: self.channel_id.clone(),
            dialog_key: self.dialog_key.clone(),
        }
    }
}

impl PartialEq for Ident {
    fn eq(&self, other: &Ident) -> (same: bool) {
        self.device_id == other.device_id && self.channel_id == other.channel_id
            && self.dialog_key == other.dialog_key
    }
}

impl PartialEqSpecImpl for Ident {
    open spec fn obeys_eq_spec() -> bool {
        true
    }

    open spec fn eq_spec(&self, other: &Ident) -> bool {
        self@ == other@
    }
}

impl Eq for Ident {

}

} // verus!
