//! What the contract remembers between messages.

use vstd::prelude::*;
use vstd::string::*;

use crate::api::{Api, ApiView};
use crate::codec::{be_bytes, be_value, bytes_to_u128, u128_to_bytes};
use crate::table::{Table, TableKey};
use crate::types::{
    copy_bytes, generic, result_view, CanonicalAddr, Coin, CoinView, HumanAddr, StdError,
    StdErrorView,
};
use crate::viewing_key::{KeyService, KeyServiceView, ViewingKey};

verus! {

/// What the token is called, how it is shown, and who runs it.
#[derive(Debug, PartialEq, Eq)]
pub struct Constants {
    pub name: String,
    pub symbol: String,
    pub decimals: u8,
    pub admin: HumanAddr,
}

/// The view of [`Constants`].
pub struct ConstantsView {
    pub name: Seq<char>,
    pub symbol: Seq<char>,
    pub decimals: u8,
    pub admin: Seq<char>,
}

impl View for Constants {
    type V = ConstantsView;

    open spec fn view(&self) -> ConstantsView {
        ConstantsView {
            name: self.name@,
            symbol: self.symbol@,
            decimals: self.decimals,
            admin: self.admin@,
        }
    }
}

impl Clone for Constants {
    fn clone(&self) -> (r: Self)
        ensures
            r@ == self@,
    {
        Constants {
            name: self.name.clone(),
            symbol: self.symbol.clone(),
            decimals: self.decimals,
            admin: self.admin.clone(),
        }
    }
}

/// A transfer, as it is shown.
#[derive(Debug, PartialEq, Eq)]
pub struct Tx {
    pub sender: HumanAddr,
    pub receiver: HumanAddr,
    pub coins: Coin,
}

/// The view of [`Tx`].
pub struct TxView {
    pub sender: Seq<char>,
    pub receiver: Seq<char>,
    pub coins: CoinView,
}

impl View for Tx {
    type V = TxView;

    open spec fn view(&self) -> TxView {
        TxView { sender: self.sender@, receiver: self.receiver@, coins: self.coins@ }
    }
}

/// A transfer, as it is kept.
#[derive(Debug, PartialEq, Eq)]
pub struct StoredTx {
    pub sender: CanonicalAddr,
    pub receiver: CanonicalAddr,
    pub coins: Coin,
}

/// The view of [`StoredTx`].
pub struct StoredTxView {
    pub sender: Seq<u8>,
    pub receiver: Seq<u8>,
    pub coins: CoinView,
}

impl View for StoredTx {
    type V = StoredTxView;

    open spec fn view(&self) -> StoredTxView {
        StoredTxView { sender: self.sender@, receiver: self.receiver@, coins: self.coins@ }
    }
}

impl StoredTxView {
    /// The transfer as it is shown, the sender's address converted before the receiver's.
    pub open spec fn humanized(self, api: ApiView) -> Result<TxView, StdErrorView> {
        match api.human_address(self.sender) {
            Err(e) => Err(e),
            Ok(sender) => match api.human_address(self.receiver) {
                Err(e) => Err(e),
                Ok(receiver) => Ok(TxView { sender, receiver, coins: self.coins }),
            },
        }
    }
}

impl StoredTx {
    /// The transfer as it is shown.
    pub fn humanize(&self, api: &Api) -> (r: Result<Tx, StdError>)
        ensures
            result_view(r) == self@.humanized(api@),
    {
        let sender = match api.human_address(&self.sender) {
            Ok(a) => a,
            Err(e) => return Err(e),
        };
        let receiver = match api.human_address(&self.receiver) {
            Ok(a) => a,
            Err(e) => return Err(e),
        };
        Ok(Tx { sender, receiver, coins: self.coins.clone() })
    }

    fn copied(&self) -> (r: Self)
        ensures
            r@ == self@,
    {
        StoredTx {
            sender: self.sender.clone(),
            receiver: self.receiver.clone(),
            coins: self.coins.clone(),
        }
    }
}

/// The transfers shown one by one, up to the first that cannot be.
pub open spec fn all_humanized(txs: Seq<StoredTxView>, api: ApiView) -> Result<
    Seq<TxView>,
    StdErrorView,
>
    decreases txs.len(),
{
    if txs.len() == 0 {
        Ok(Seq::empty())
    } else {
        match all_humanized(txs.drop_last(), api) {
            Err(e) => Err(e),
            Ok(shown) => match txs.last().humanized(api) {
                Err(e) => Err(e),
                Ok(tx) => Ok(shown.push(tx)),
            },
        }
    }
}

/// The transfers of one account, the oldest first.
#[derive(Debug, PartialEq, Eq)]
pub struct History(pub Vec<StoredTx>);

impl View for History {
    type V = Seq<StoredTxView>;

    open spec fn view(&self) -> Seq<StoredTxView> {
        self.0@.map_values(|t: StoredTx| t@)
    }
}

/// Tokens that were burned here to be paid out elsewhere.
#[derive(Debug, PartialEq, Eq)]
pub struct Swap {
    pub destination: String,
    pub amount: u128,
    pub nonce: u32,
}

/// The view of [`Swap`].
pub struct SwapView {
    pub destination: Seq<char>,
    pub amount: u128,
    pub nonce: u32,
}

impl View for Swap {
    type V = SwapView;

    open spec fn view(&self) -> SwapView {
        SwapView { destination: self.destination@, amount: self.amount, nonce: self.nonce }
    }
}

impl Clone for Swap {
    fn clone(&self) -> (r: Self)
        ensures
            r@ == self@,
    {
        Swap { destination: self.destination.clone(), amount: self.amount, nonce: self.nonce }
    }
}

struct AllowanceKey {
    owner: CanonicalAddr,
    spender: CanonicalAddr,
}

impl View for AllowanceKey {
    type V = (Seq<u8>, Seq<u8>);

    closed spec fn view(&self) -> (Seq<u8>, Seq<u8>) {
        (self.owner@, self.spender@)
    }
}

impl TableKey for AllowanceKey {
    fn same(&self, other: &Self) -> (r: bool) {
        self.owner.same(&other.owner) && self.spender.same(&other.spender)
    }
}

/// The contract's storage.
pub struct Storage {
    constants: Option<Constants>,
    total_supply: u128,
    balances: Table<CanonicalAddr, u128>,
    allowances: Table<AllowanceKey, Vec<u8>>,
    viewing_keys: Table<CanonicalAddr, Vec<u8>>,
    transfers: Table<CanonicalAddr, History>,
    swaps: Vec<Swap>,
}

/// The contract's storage, as the contracts of its functions speak of it.
///
/// `allowances` is keyed by owner and spender and holds raw bytes; `viewing_keys` holds digests.
#[verifier::ext_equal]
pub struct StorageView {
    pub constants: Option<ConstantsView>,
    pub total_supply: u128,
    pub balances: Map<Seq<u8>, u128>,
    pub allowances: Map<(Seq<u8>, Seq<u8>), Seq<u8>>,
    pub viewing_keys: Map<Seq<u8>, Seq<u8>>,
    pub transfers: Map<Seq<u8>, Seq<StoredTxView>>,
    pub swaps: Seq<SwapView>,
}

impl View for Storage {
    type V = StorageView;

    closed spec fn view(&self) -> StorageView {
        StorageView {
            constants: match self.constants {
                Some(c) => Some(c@),
                None => None,
            },
            total_supply: self.total_supply,
            balances: self.balances@,
            allowances: self.allowances@,
            viewing_keys: self.viewing_keys@,
            transfers: self.transfers@,
            swaps: self.swaps@.map_values(|s: Swap| s@),
        }
    }
}

impl StorageView {
    /// A storage in which nothing was ever written.
    pub open spec fn blank() -> StorageView {
        StorageView {
            constants: None,
            total_supply: 0,
            balances: Map::empty(),
            allowances: Map::empty(),
            viewing_keys: Map::empty(),
            transfers: Map::empty(),
            swaps: Seq::empty(),
        }
    }

    /// What every storage satisfies: finitely many accounts were ever written.
    pub open spec fn valid(self) -> bool {
        self.balances.dom().finite()
    }

    /// The constants, once they are set.
    pub open spec fn config(self) -> Result<ConstantsView, StdErrorView> {
        match self.constants {
            Some(c) => Ok(c),
            None => Err(generic("no constants stored in configuration"@)),
        }
    }

    /// What the account holds.
    pub open spec fn balance(self, account: Seq<u8>) -> u128 {
        if self.balances.contains_key(account) {
            self.balances[account]
        } else {
            0
        }
    }

    /// The storage in which the account holds `amount`.
    pub open spec fn with_balance(self, account: Seq<u8>, amount: u128) -> StorageView {
        StorageView { balances: self.balances.insert(account, amount), ..self }
    }

    /// The storage with this total supply.
    pub open spec fn with_supply(self, total_supply: u128) -> StorageView {
        StorageView { total_supply, ..self }
    }

    /// The storage with these constants.
    pub open spec fn with_constants(self, c: ConstantsView) -> StorageView {
        StorageView { constants: Some(c), ..self }
    }

    /// What the spender may still take from the owner. Nothing, if nothing was ever approved.
    pub open spec fn allowance(self, owner: Seq<u8>, spender: Seq<u8>) -> Result<
        u128,
        StdErrorView,
    > {
        if !self.allowances.contains_key((owner, spender)) {
            Ok(0)
        } else if self.allowances[(owner, spender)].len() == 16 {
            Ok(be_value(self.allowances[(owner, spender)]) as u128)
        } else {
            Err(generic("Corrupted data found. 16 byte expected."@))
        }
    }

    /// The storage in which the spender may take `amount` from the owner.
    pub open spec fn with_allowance(
        self,
        owner: Seq<u8>,
        spender: Seq<u8>,
        amount: u128,
    ) -> StorageView {
        StorageView {
            allowances: self.allowances.insert((owner, spender), be_bytes(amount as nat, 16)),
            ..self
        }
    }

    /// The digest under which the account's viewing key is kept.
    pub open spec fn viewing_key(self, account: Seq<u8>) -> Option<Seq<u8>> {
        if self.viewing_keys.contains_key(account) {
            Some(self.viewing_keys[account])
        } else {
            None
        }
    }

    /// The storage in which the account's viewing key is kept under `digest`.
    pub open spec fn with_viewing_key(self, account: Seq<u8>, digest: Seq<u8>) -> StorageView {
        StorageView { viewing_keys: self.viewing_keys.insert(account, digest), ..self }
    }

    /// The transfers of the account, the oldest first.
    pub open spec fn history(self, account: Seq<u8>) -> Seq<StoredTxView> {
        if self.transfers.contains_key(account) {
            self.transfers[account]
        } else {
            Seq::empty()
        }
    }

    /// The storage in which the transfer is the newest of the account's.
    pub open spec fn with_tx(self, account: Seq<u8>, tx: StoredTxView) -> StorageView {
        StorageView {
            transfers: self.transfers.insert(account, self.history(account).push(tx)),
            ..self
        }
    }

    /// The storage in which the transfer is the newest of the sender's and of the receiver's,
    /// once even if they are one account.
    pub open spec fn with_transfer(
        self,
        sender: Seq<u8>,
        receiver: Seq<u8>,
        amount: u128,
        denom: Seq<char>,
    ) -> StorageView {
        let tx = StoredTxView { sender, receiver, coins: CoinView { denom, amount } };
        if sender == receiver {
            self.with_tx(sender, tx)
        } else {
            self.with_tx(sender, tx).with_tx(receiver, tx)
        }
    }

    /// The newest `n` transfers of the account, or all if there are fewer, the newest first.
    pub open spec fn newest(self, account: Seq<u8>, n: u32) -> Seq<StoredTxView> {
        let all = self.history(account).reverse();
        if n < all.len() {
            all.take(n as int)
        } else {
            all
        }
    }

    /// The storage with one more swap, whose nonce is the number of swaps before it.
    pub open spec fn with_swap(self, destination: Seq<char>, amount: u128) -> StorageView {
        StorageView {
            swaps: self.swaps.push(
                SwapView { destination, amount, nonce: self.swaps.len() as u32 },
            ),
            ..self
        }
    }

    /// The swap with the nonce.
    pub open spec fn swap(self, nonce: u32) -> Result<SwapView, StdErrorView> {
        if nonce < self.swaps.len() {
            Ok(self.swaps[nonce as int])
        } else {
            Err(generic("No swap with this nonce"@))
        }
    }
}

impl Storage {
    /// A storage in which nothing was ever written.
    pub fn new() -> (r: Self)
        ensures
            r@ == StorageView::blank(),
    {
        let r = Storage {
            constants: None,
            total_supply: 0,
            balances: Table::new(),
            allowances: Table::new(),
            viewing_keys: Table::new(),
            transfers: Table::new(),
            swaps: Vec::new(),
        };
        assert(r@.swaps =~= Seq::empty());
        r
    }

    /// Every storage is valid.
    pub proof fn lemma_valid(&self)
        ensures
            self@.valid(),
    {
        self.balances.lemma_finite();
    }

    /// The constants, once they are set.
    pub fn constants(&self) -> (r: Result<&Constants, StdError>)
        ensures
            result_view(r) == self@.config(),
    {
        match &self.constants {
            Some(c) => Ok(c),
            None => Err(StdError::generic_err("no constants stored in configuration".to_owned())),
        }
    }

    /// Sets the constants.
    pub fn set_constants(&mut self, constants: Constants)
        ensures
            final(self)@ == old(self)@.with_constants(constants@),
    {
        self.constants = Some(constants);
    }

    /// How many tokens there are.
    pub fn total_supply(&self) -> (r: u128)
        ensures
            r == self@.total_supply,
    {
        self.total_supply
    }

    /// Sets how many tokens there are.
    pub fn set_total_supply(&mut self, supply: u128)
        ensures
            final(self)@ == old(self)@.with_supply(supply),
    {
        self.total_supply = supply;
    }

    /// What the account holds.
    pub fn balance(&self, account: &CanonicalAddr) -> (r: u128)
        ensures
            r == self@.balance(account@),
    {
        match self.balances.get(account) {
            Some(b) => *b,
            None => 0,
        }
    }

    /// Sets what the account holds.
    pub fn set_account_balance(&mut self, account: &CanonicalAddr, amount: u128)
        ensures
            final(self)@ == old(self)@.with_balance(account@, amount),
    {
        self.balances.insert(account.clone(), amount);
    }

    /// The raw bytes that are kept for an allowance.
    pub fn allowance_bytes(&self, owner: &CanonicalAddr, spender: &CanonicalAddr) -> (r: Option<
        Vec<u8>,
    >)
        ensures
            match r {
                Some(b) => self@.allowances.contains_key((owner@, spender@))
                    && self@.allowances[(owner@, spender@)] == b@,
                None => !self@.allowances.contains_key((owner@, spender@)),
            },
    {
        let key = AllowanceKey { owner: owner.clone(), spender: spender.clone() };
        match self.allowances.get(&key) {
            Some(b) => Some(copy_bytes(b)),
            None => None,
        }
    }

    /// Sets the raw bytes that are kept for an allowance.
    pub fn set_allowance_bytes(
        &mut self,
        owner: &CanonicalAddr,
        spender: &CanonicalAddr,
        bytes: Vec<u8>,
    )
        ensures
            final(self)@ == (StorageView {
                allowances: old(self)@.allowances.insert((owner@, spender@), bytes@),
                ..old(self)@
            }),
    {
        let key = AllowanceKey { owner: owner.clone(), spender: spender.clone() };
        self.allowances.insert(key, bytes);
    }

    /// Sets the digest under which the account's viewing key is kept.
    pub fn set_viewing_key_digest(&mut self, account: &CanonicalAddr, digest: Vec<u8>)
        ensures
            final(self)@ == old(self)@.with_viewing_key(account@, digest@),
    {
        self.viewing_keys.insert(account.clone(), digest);
    }

    /// Adds a transfer to an account's history, as its newest.
    pub fn append_tx(&mut self, account: &CanonicalAddr, tx: StoredTx)
        ensures
            final(self)@ == old(self)@.with_tx(account@, tx@),
    {
        match self.transfers.get_mut(account) {
            Some(history) => {
                let ghost before = history@;
                history.0.push(tx);
                assert(history@ =~= before.push(tx@));
            },
            None => {
                let mut txs: Vec<StoredTx> = Vec::new();
                txs.push(tx);
                let history = History(txs);
                assert(history@ =~= Seq::empty().push(tx@));
                self.transfers.insert(account.clone(), history);
            },
        }
    }

    /// The transfers of an account, the oldest first.
    pub fn history(&self, account: &CanonicalAddr) -> (r: Option<&History>)
        ensures
            match r {
                Some(h) => self@.transfers.contains_key(account@) && self@.transfers[account@]
                    == h@,
                None => !self@.transfers.contains_key(account@),
            },
    {
        self.transfers.get(account)
    }

    /// How many swaps there were.
    pub fn swap_count(&self) -> (r: usize)
        ensures
            r == self@.swaps.len(),
    {
        self.swaps.len()
    }
}

/// What the spender may still take from the owner.
pub fn read_allowance(
    store: &Storage,
    owner: &CanonicalAddr,
    spender: &CanonicalAddr,
) -> (r: Result<u128, StdError>)
    ensures
        result_view(r) == store@.allowance(owner@, spender@),
{
    match store.allowance_bytes(owner, spender) {
        None => Ok(0),
        Some(bytes) => match bytes_to_u128(&bytes) {
            Some(n) => Ok(n),
            None => Err(
                StdError::generic_err("Corrupted data found. 16 byte expected.".to_owned()),
            ),
        },
    }
}

/// Sets what the spender may take from the owner.
pub fn write_allowance(
    store: &mut Storage,
    owner: &CanonicalAddr,
    spender: &CanonicalAddr,
    amount: u128,
)
    ensures
        final(store)@ == old(store)@.with_allowance(owner@, spender@, amount),
{
    store.set_allowance_bytes(owner, spender, u128_to_bytes(amount));
}

/// The digest under which the account's viewing key is kept.
pub fn read_viewing_key(store: &Storage, owner: &CanonicalAddr) -> (r: Option<Vec<u8>>)
    ensures
        match r {
            Some(d) => store@.viewing_key(owner@) == Some(d@),
            None => store@.viewing_key(owner@) is None,
        },
{
    match store.viewing_keys.get(owner) {
        Some(d) => Some(copy_bytes(d)),
        None => None,
    }
}

/// What keeping the key for the account comes to: its digest is kept, not the key.
pub open spec fn key_kept(
    s: StorageView,
    keys: KeyServiceView,
    account: Seq<u8>,
    key: Seq<char>,
) -> StorageView
    recommends
        keys.digest(key) is Some,
{
    s.with_viewing_key(account, keys.digest(key)->Some_0)
}

/// Keeps the viewing key for the account.
pub fn write_viewing_key(
    store: &mut Storage,
    keys: &KeyService,
    owner: &CanonicalAddr,
    key: &ViewingKey,
)
    requires
        keys@.digest(key@) is Some,
    ensures
        final(store)@ == key_kept(old(store)@, keys@, owner@, key@),
{
    match keys.digest(key) {
        Some(digest) => store.set_viewing_key_digest(owner, digest),
        None => vstd::pervasive::unreached(),
    }
}

/// Records a transfer with its sender and its receiver.
pub fn store_transfer(
    store: &mut Storage,
    sender: &CanonicalAddr,
    receiver: &CanonicalAddr,
    amount: u128,
    denom: String,
)
    ensures
        final(store)@ == old(store)@.with_transfer(sender@, receiver@, amount, denom@),
{
    let tx = StoredTx {
        sender: sender.clone(),
        receiver: receiver.clone(),
        coins: Coin { denom, amount },
    };
    if !sender.same(receiver) {
        store.append_tx(sender, tx.copied());
    }
    store.append_tx(receiver, tx);
}

/// The newest `n` transfers of the account, the newest first.
pub fn get_transfers(
    api: &Api,
    storage: &Storage,
    for_address: &CanonicalAddr,
    n: u32,
) -> (r: Result<Vec<Tx>, StdError>)
    ensures
        match r {
            Ok(txs) => all_humanized(storage@.newest(for_address@, n), api@) == Ok::<
                Seq<TxView>,
                StdErrorView,
            >(txs@.map_values(|t: Tx| t@)),
            Err(e) => all_humanized(storage@.newest(for_address@, n), api@) == Err::<
                Seq<TxView>,
                StdErrorView,
            >(e@),
        },
{
    let ghost shown = storage@.newest(for_address@, n);
    let mut txs: Vec<Tx> = Vec::new();
    match storage.history(for_address) {
        None => {
            assert(shown =~= Seq::empty());
            assert(txs@.map_values(|t: Tx| t@) =~= Seq::empty());
            Ok(txs)
        },
        Some(history) => {
            let len = history.0.len();
            let mut i: usize = 0;
            assert(shown.take(0) =~= Seq::empty());
            assert(txs@.map_values(|t: Tx| t@) =~= Seq::empty());
            while i < len && (i as u64) < (n as u64)
                invariant
                    i <= len,
                    i <= n,
                    len == history.0@.len(),
                    history@ == storage@.history(for_address@),
                    shown == storage@.newest(for_address@, n),
                    all_humanized(shown.take(i as int), api@) == Ok::<Seq<TxView>, StdErrorView>(
                        txs@.map_values(|t: Tx| t@),
                    ),
                decreases len - i,
            {
                proof {
                    assert(shown.take(i + 1).drop_last() =~= shown.take(i as int));
                    assert(shown.take(i + 1).last() == shown[i as int]);
                    assert(shown[i as int] == history.0@[len - 1 - i]@);
                }
                match history.0[len - 1 - i].humanize(api) {
                    Ok(tx) => {
                        let ghost before = txs@;
                        txs.push(tx);
                        assert(txs@.map_values(|t: Tx| t@) =~= before.map_values(
                            |t: Tx| t@,
                        ).push(tx@));
                        i = i + 1;
                    },
                    Err(e) => {
                        proof {
                            lemma_first_failure(shown, i as int, api@, e@);
                        }
                        return Err(e);
                    },
                }
            }
            assert(shown.take(i as int) =~= shown);
            Ok(txs)
        },
    }
}

/// The first transfer that cannot be shown decides the error.
pub proof fn lemma_first_failure(txs: Seq<StoredTxView>, i: int, api: ApiView, e: StdErrorView)
    requires
        0 <= i < txs.len(),
        all_humanized(txs.take(i), api) is Ok,
        txs[i].humanized(api) == Err::<TxView, StdErrorView>(e),
    ensures
        all_humanized(txs, api) == Err::<Seq<TxView>, StdErrorView>(e),
{
    assert(txs.take(i + 1).drop_last() =~= txs.take(i));
    assert(txs.take(i + 1).last() == txs[i]);
    lemma_failure_spreads(txs, i + 1, api, e);
}

proof fn lemma_failure_spreads(txs: Seq<StoredTxView>, j: int, api: ApiView, e: StdErrorView)
    requires
        0 <= j <= txs.len(),
        all_humanized(txs.take(j), api) == Err::<Seq<TxView>, StdErrorView>(e),
    ensures
        all_humanized(txs, api) == Err::<Seq<TxView>, StdErrorView>(e),
    decreases txs.len() - j,
{
    if j < txs.len() {
        assert(txs.take(j + 1).drop_last() =~= txs.take(j));
        lemma_failure_spreads(txs, j + 1, api, e);
    } else {
        assert(txs.take(j) =~= txs);
    }
}

/// Records a swap under the next nonce.
pub fn store_swap(store: &mut Storage, destination: String, amount: u128) -> (r: Result<
    (),
    StdError,
>)
    ensures
        if old(store)@.swaps.len() <= u32::MAX {
            r is Ok && final(store)@ == old(store)@.with_swap(destination@, amount)
        } else {
            r is Err && r->Err_0@ == generic("No nonce is left"@) && final(store)@ == old(store)@
        },
{
    let count = store.swaps.len();
    if (count as u64) > (u32::MAX as u64) {
        return Err(StdError::generic_err("No nonce is left".to_owned()));
    }
    let swap = Swap { destination, amount, nonce: count as u32 };
    store.swaps.push(swap);
    assert(store@.swaps =~= old(store)@.swaps.push(swap@));
    Ok(())
}

/// The swap with the nonce.
pub fn get_swap(storage: &Storage, nonce: u32) -> (r: Result<Swap, StdError>)
    ensures
        result_view(r) == storage@.swap(nonce),
{
    if (nonce as u64) < (storage.swaps.len() as u64) {
        Ok(storage.swaps[nonce as usize].clone())
    } else {
        Err(StdError::generic_err("No swap with this nonce".to_owned()))
    }
}

} // verus!
