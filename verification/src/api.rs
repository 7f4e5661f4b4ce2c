//! Address conversion, as answered by the chain.

use vstd::prelude::*;

use crate::table::Table;
use crate::types::{result_view, CanonicalAddr, HumanAddr, StdError, StdErrorView};

verus! {

/// What the chain answered for a human address.
pub struct CanonicalAnswer(pub Result<CanonicalAddr, StdError>);

impl View for CanonicalAnswer {
    type V = Result<Seq<u8>, StdErrorView>;

    open spec fn view(&self) -> Result<Seq<u8>, StdErrorView> {
        result_view(self.0)
    }
}

/// What the chain answered for a canonical address.
pub struct HumanAnswer(pub Result<HumanAddr, StdError>);

impl View for HumanAnswer {
    type V = Result<Seq<char>, StdErrorView>;

    open spec fn view(&self) -> Result<Seq<char>, StdErrorView> {
        result_view(self.0)
    }
}

/// The conversions that the chain answered for one message.
pub struct Api {
    canonical: Table<HumanAddr, CanonicalAnswer>,
    human: Table<CanonicalAddr, HumanAnswer>,
}

/// The view of [`Api`].
#[verifier::ext_equal]
pub struct ApiView {
    pub canonical: Map<Seq<char>, Result<Seq<u8>, StdErrorView>>,
    pub human: Map<Seq<u8>, Result<Seq<char>, StdErrorView>>,
}

impl View for Api {
    type V = ApiView;

    closed spec fn view(&self) -> ApiView {
        ApiView { canonical: self.canonical@, human: self.human@ }
    }
}

impl ApiView {
    /// The binary form of a human address.
    pub open spec fn canonical_address(self, human: Seq<char>) -> Result<Seq<u8>, StdErrorView> {
        if self.canonical.contains_key(human) {
            self.canonical[human]
        } else {
            Err(StdErrorView::NotFound { kind: "canonical address"@ })
        }
    }

    /// The written form of a canonical address.
    pub open spec fn human_address(self, canonical: Seq<u8>) -> Result<Seq<char>, StdErrorView> {
        if self.human.contains_key(canonical) {
            self.human[canonical]
        } else {
            Err(StdErrorView::NotFound { kind: "human address"@ })
        }
    }
}

impl Api {
    /// No conversion answered.
    pub fn new() -> (r: Self)
        ensures
            r@.canonical == Map::<Seq<char>, Result<Seq<u8>, StdErrorView>>::empty(),
            r@.human == Map::<Seq<u8>, Result<Seq<char>, StdErrorView>>::empty(),
    {
        Api { canonical: Table::new(), human: Table::new() }
    }

    /// Takes down the answer for a human address.
    pub fn answer_canonical(&mut self, human: HumanAddr, answer: Result<CanonicalAddr, StdError>)
        ensures
            final(self)@ == (ApiView {
                canonical: old(self)@.canonical.insert(human@, result_view(answer)),
                ..old(self)@
            }),
    {
        self.canonical.insert(human, CanonicalAnswer(answer));
    }

    /// Takes down the answer for a canonical address.
    pub fn answer_human(&mut self, canonical: CanonicalAddr, answer: Result<HumanAddr, StdError>)
        ensures
            final(self)@ == (ApiView {
                human: old(self)@.human.insert(canonical@, result_view(answer)),
                ..old(self)@
            }),
    {
        self.human.insert(canonical, HumanAnswer(answer));
    }

    /// The binary form of a human address.
    pub fn canonical_address(&self, human: &HumanAddr) -> (r: Result<CanonicalAddr, StdError>)
        ensures
            result_view(r) == self@.canonical_address(human@),
    {
        match self.canonical.get(human) {
            Some(answer) => match &answer.0 {
                Ok(a) => Ok(a.clone()),
                Err(e) => Err(e.clone()),
            },
            None => Err(StdError::not_found("canonical address")),
        }
    }

    /// The written form of a canonical address.
    pub fn human_address(&self, canonical: &CanonicalAddr) -> (r: Result<HumanAddr, StdError>)
        ensures
            result_view(r) == self@.human_address(canonical@),
    {
        match self.human.get(canonical) {
            Some(answer) => match &answer.0 {
                Ok(a) => Ok(a.clone()),
                Err(e) => Err(e.clone()),
            },
            None => Err(StdError::not_found("human address")),
        }
    }
}

} // verus!
