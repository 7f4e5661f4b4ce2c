//! Everything outside a message that a message works on.

use vstd::prelude::*;

use crate::api::{Api, ApiView};
use crate::state::{Storage, StorageView};
use crate::viewing_key::{KeyService, KeyServiceView};

verus! {

/// The storage, and the answers of the chain and of the key derivation.
pub struct Deps {
    pub storage: Storage,
    pub api: Api,
    pub keys: KeyService,
}

/// The view of [`Deps`].
#[verifier::ext_equal]
pub struct DepsView {
    pub storage: StorageView,
    pub api: ApiView,
    pub keys: KeyServiceView,
}

impl View for Deps {
    type V = DepsView;

    open spec fn view(&self) -> DepsView {
        DepsView { storage: self.storage@, api: self.api@, keys: self.keys@ }
    }
}

} // verus!
