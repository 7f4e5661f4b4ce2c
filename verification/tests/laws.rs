use secret_token::api::Api;
use secret_token::contract::{
    handle, init, perform_transfer, query, try_approve, try_balance, try_burn, try_check_allowance,
    try_deposit, try_transfer, try_transfer_from,
};
use secret_token::deps::Deps;
use secret_token::display::to_display_token;
use secret_token::guard::handle_in_range;
use secret_token::msg::{HandleMsg, InitMsg, InitialBalance, QueryAnswer, QueryMsg};
use secret_token::state::{
    get_swap, get_transfers, read_allowance, read_viewing_key, Storage, StoredTx,
};
use secret_token::text::u128_to_string;
use secret_token::types::{
    CanonicalAddr, Coin, ContractInfo, Env, HandleResponse, HumanAddr, MessageInfo, StdError,
};
use secret_token::utils::{ConstLenStr, CONST_LEN};
use secret_token::viewing_key::{KeyRequest, KeyService, ViewingKey};

const NAMES: [&str; 4] = ["admin", "alice", "bob", "carol"];

fn human(name: &str) -> HumanAddr {
    HumanAddr(name.to_string())
}

fn account(name: &str) -> CanonicalAddr {
    CanonicalAddr(name.as_bytes().to_vec())
}

fn env(sender: &str) -> Env {
    Env {
        message: MessageInfo {
            sender: human(sender),
            sent_funds: vec![Coin { denom: "uscrt".to_string(), amount: 40 }],
        },
        contract: ContractInfo { address: human("contract") },
    }
}

fn token() -> Deps {
    let mut api = Api::new();
    for name in NAMES {
        api.answer_canonical(human(name), Ok(account(name)));
        api.answer_human(account(name), Ok(human(name)));
    }
    let mut keys = KeyService::new();
    for letter in ["k", "q"] {
        keys.answer_digest(ViewingKey(letter.repeat(44)), letter.as_bytes().to_vec());
    }
    keys.answer_new_key(
        KeyRequest { sender: human("bob"), seed: b"yo".to_vec(), entropy: b"e".to_vec() },
        ViewingKey("k".repeat(44)),
    );
    let mut deps = Deps { storage: Storage::new(), api, keys };
    let msg = InitMsg {
        name: "secret".to_string(),
        admin: human("admin"),
        symbol: "SCRT".to_string(),
        decimals: 6,
        initial_balances: vec![
            InitialBalance { address: human("alice"), amount: 100 },
            InitialBalance { address: human("bob"), amount: 50 },
        ],
    };
    init(&mut deps, env("admin"), msg).unwrap();
    deps
}

fn send(deps: &mut Deps, sender: &str, msg: HandleMsg) -> Result<HandleResponse, StdError> {
    assert!(handle_in_range(deps, &env(sender), &msg));
    handle(deps, env(sender), msg)
}

fn held(deps: &Deps) -> u128 {
    NAMES.iter().map(|name| deps.storage.balance(&account(name))).sum()
}

fn every_message() -> Vec<(&'static str, HandleMsg)> {
    vec![
        ("alice", HandleMsg::Deposit),
        ("alice", HandleMsg::Withdraw { amount: 15 }),
        ("alice", HandleMsg::Withdraw { amount: 1_000 }),
        ("bob", HandleMsg::Balance),
        ("alice", HandleMsg::Transfer { recipient: human("bob"), amount: 30 }),
        ("alice", HandleMsg::Transfer { recipient: human("alice"), amount: 30 }),
        ("carol", HandleMsg::Transfer { recipient: human("bob"), amount: 30 }),
        ("bob", HandleMsg::Burn { amount: 7 }),
        ("admin", HandleMsg::Mint { amount: 9, address: human("carol") }),
        ("bob", HandleMsg::Mint { amount: 9, address: human("bob") }),
        ("admin", HandleMsg::Mint { amount: 9, address: human("nobody") }),
        ("bob", HandleMsg::CreateViewingKey { entropy: "e".to_string() }),
        ("alice", HandleMsg::SetViewingKey { key: "q".repeat(44) }),
        ("alice", HandleMsg::Approve { spender: human("carol"), amount: 25 }),
        (
            "carol",
            HandleMsg::TransferFrom { owner: human("alice"), recipient: human("bob"), amount: 20 },
        ),
        (
            "carol",
            HandleMsg::TransferFrom { owner: human("alice"), recipient: human("bob"), amount: 20 },
        ),
        ("alice", HandleMsg::Allowance { spender: human("carol") }),
        (
            "bob",
            HandleMsg::Swap {
                amount: 3,
                network: "n".to_string(),
                destination: "d".to_string(),
            },
        ),
        ("admin", HandleMsg::ChangeAdmin { address: human("bob") }),
        ("admin", HandleMsg::ChangeAdmin { address: human("admin") }),
    ]
}

#[test]
fn supply_covers_all_balances() {
    let mut deps = token();
    assert_eq!(held(&deps), 150);
    for (sender, msg) in every_message() {
        let before = deps.storage.total_supply() - held(&deps);
        let answer = send(&mut deps, sender, msg);
        let left = deps.storage.total_supply() - held(&deps);
        assert!(left >= before);
        assert!(answer.is_err() || left == before);
    }
}

#[test]
fn only_withdrawals_send_coins() {
    let mut deps = token();
    for (sender, msg) in every_message() {
        let withdraws = matches!(msg, HandleMsg::Withdraw { .. });
        if let Ok(answer) = send(&mut deps, sender, msg) {
            assert_eq!(!answer.messages.is_empty(), withdraws);
        }
    }
}

#[test]
fn only_named_accounts_change() {
    let mut deps = token();
    for (sender, msg) in every_message() {
        let before: Vec<u128> =
            NAMES.iter().map(|name| deps.storage.balance(&account(name))).collect();
        let text = format!("{:?}", msg);
        let _ = send(&mut deps, sender, msg);
        for (name, old) in NAMES.iter().zip(before) {
            if *name != sender && !text.contains(&format!("{:?}", human(name))) {
                assert_eq!(deps.storage.balance(&account(name)), old);
            }
        }
    }
}

#[test]
fn supply_is_otherwise_fixed() {
    let mut deps = token();
    for (sender, msg) in every_message() {
        let old = deps.storage.total_supply();
        let may_change = matches!(
            msg,
            HandleMsg::Deposit
                | HandleMsg::Withdraw { .. }
                | HandleMsg::Mint { .. }
                | HandleMsg::Burn { .. }
                | HandleMsg::Swap { .. }
        );
        let _ = send(&mut deps, sender, msg);
        assert!(may_change || deps.storage.total_supply() == old);
    }
}

#[test]
fn constants_are_kept() {
    let mut deps = token();
    for (sender, msg) in every_message() {
        let _ = send(&mut deps, sender, msg);
        let constants = deps.storage.constants().unwrap();
        assert_eq!(constants.name, "secret");
        assert_eq!(constants.symbol, "SCRT");
        assert_eq!(constants.decimals, 6);
    }
    assert_eq!(deps.storage.constants().unwrap().admin, human("bob"));
}

#[test]
fn histories_and_swaps_are_kept() {
    let mut deps = token();
    let mut histories: Vec<Vec<u128>> = vec![vec![]; NAMES.len()];
    for (sender, msg) in every_message() {
        let _ = send(&mut deps, sender, msg);
        for (name, old) in NAMES.iter().zip(histories.iter_mut()) {
            let new: Vec<u128> = match deps.storage.history(&account(name)) {
                Some(history) => history.0.iter().map(|tx: &StoredTx| tx.coins.amount).collect(),
                None => vec![],
            };
            assert!(new.starts_with(old));
            *old = new;
        }
    }
    assert_eq!(histories, vec![vec![], vec![30, 30, 20], vec![30, 20], vec![]]);
    let swap = get_swap(&deps.storage, 0).unwrap();
    assert_eq!((swap.destination.as_str(), swap.amount, swap.nonce), ("d", 3, 0));
    send(
        &mut deps,
        "bob",
        HandleMsg::Swap { amount: 1, network: "n".to_string(), destination: "x".to_string() },
    )
    .unwrap();
    assert_eq!(get_swap(&deps.storage, 0).unwrap(), swap);
}

#[test]
fn move_conserves_and_is_exact() {
    let mut store = Storage::new();
    store.set_account_balance(&account("alice"), 10);
    store.set_account_balance(&account("carol"), 3);
    perform_transfer(&mut store, &account("alice"), &account("bob"), 4).unwrap();
    assert_eq!(store.balance(&account("alice")), 6);
    assert_eq!(store.balance(&account("bob")), 4);
    assert_eq!(store.balance(&account("carol")), 3);
    perform_transfer(&mut store, &account("alice"), &account("alice"), 6).unwrap();
    assert_eq!(store.balance(&account("alice")), 6);
    assert!(perform_transfer(&mut store, &account("alice"), &account("bob"), 7).is_err());
    assert_eq!(store.balance(&account("alice")), 6);
    assert_eq!(store.balance(&account("bob")), 4);
}

#[test]
fn a_refused_message_moves_nothing() {
    let mut deps = token();
    for (sender, msg) in every_message() {
        let before: Vec<u128> =
            NAMES.iter().map(|name| deps.storage.balance(&account(name))).collect();
        if send(&mut deps, sender, msg).is_err() {
            let after: Vec<u128> =
                NAMES.iter().map(|name| deps.storage.balance(&account(name))).collect();
            assert_eq!(before, after);
        }
    }
}

#[test]
fn a_spender_stays_within_the_allowance() {
    let mut deps = token();
    try_approve(&mut deps, env("alice"), &human("carol"), 25).unwrap();
    let mut taken = 0;
    for amount in [10, 20, 9, 7, 6, 1] {
        let allowed = read_allowance(&deps.storage, &account("alice"), &account("carol")).unwrap();
        let answer =
            try_transfer_from(&mut deps, env("carol"), &human("alice"), &human("bob"), amount);
        assert_eq!(answer.is_ok(), amount <= allowed);
        if answer.is_ok() {
            taken += amount;
        }
        let left = read_allowance(&deps.storage, &account("alice"), &account("carol")).unwrap();
        assert_eq!(taken + left, 25);
    }
    assert_eq!(taken, 25);
}

#[test]
fn an_owner_who_goes_on_does_not_change_the_allowance() {
    let mut deps = token();
    try_approve(&mut deps, env("alice"), &human("carol"), 25).unwrap();
    try_approve(&mut deps, env("alice"), &human("alice"), 9).unwrap();
    try_deposit(&mut deps, env("alice")).unwrap();
    try_transfer(&mut deps, env("alice"), &human("bob"), 5).unwrap();
    try_approve(&mut deps, env("alice"), &human("bob"), 70).unwrap();
    assert_eq!(read_allowance(&deps.storage, &account("alice"), &account("carol")), Ok(25));
    try_transfer_from(&mut deps, env("alice"), &human("alice"), &human("bob"), 4).unwrap();
    assert_eq!(read_allowance(&deps.storage, &account("alice"), &account("alice")), Ok(5));
}

#[test]
fn a_debit_is_the_amount_of_the_message() {
    let mut deps = token();
    for (sender, msg) in every_message() {
        let before: Vec<u128> =
            NAMES.iter().map(|name| deps.storage.balance(&account(name))).collect();
        let taken = match &msg {
            HandleMsg::Withdraw { amount }
            | HandleMsg::Transfer { amount, .. }
            | HandleMsg::Burn { amount }
            | HandleMsg::TransferFrom { amount, .. }
            | HandleMsg::Swap { amount, .. } => *amount,
            _ => 0,
        };
        let _ = send(&mut deps, sender, msg);
        let debits: Vec<u128> = NAMES
            .iter()
            .zip(before)
            .map(|(name, old)| old.saturating_sub(deps.storage.balance(&account(name))))
            .filter(|debit| *debit > 0)
            .collect();
        assert!(debits.is_empty() || debits == [taken]);
    }
}

#[test]
fn only_the_owner_changes_allowance_and_key() {
    let mut deps = token();
    try_approve(&mut deps, env("alice"), &human("carol"), 25).unwrap();
    for (sender, msg) in every_message() {
        if sender == "alice" {
            continue;
        }
        let old = read_allowance(&deps.storage, &account("alice"), &account("carol")).unwrap();
        let _ = send(&mut deps, sender, msg);
        let new = read_allowance(&deps.storage, &account("alice"), &account("carol")).unwrap();
        assert!(new <= old);
        assert_eq!(read_viewing_key(&deps.storage, &account("alice")), None);
    }
    assert_eq!(read_viewing_key(&deps.storage, &account("bob")), Some(b"k".to_vec()));
}

#[test]
fn what_is_written_is_shown() {
    let mut deps = token();
    send(&mut deps, "alice", HandleMsg::SetViewingKey { key: "q".repeat(44) }).unwrap();
    try_deposit(&mut deps, env("alice")).unwrap();
    let ask = QueryMsg::Balance { address: human("alice"), key: "q".repeat(44) };
    assert_eq!(query(&deps, ask).unwrap(), QueryAnswer::Text(b"0.00014 SCRT".to_vec()));

    try_approve(&mut deps, env("alice"), &human("bob"), 25).unwrap();
    let answer = try_check_allowance(&mut deps, env("alice"), human("bob")).unwrap();
    assert_eq!(answer.log[3].value, ConstLenStr("25".to_string()).render());

    try_transfer(&mut deps, env("alice"), &human("bob"), 11).unwrap();
    for name in ["alice", "bob"] {
        let txs = get_transfers(&deps.api, &deps.storage, &account(name), 1).unwrap();
        assert_eq!((txs.len(), txs[0].coins.amount), (1, 11));
        assert_eq!((&txs[0].sender, &txs[0].receiver), (&human("alice"), &human("bob")));
    }
}

#[test]
fn an_approval_shows_nowhere_else() {
    let mut deps = token();
    try_approve(&mut deps, env("bob"), &human("alice"), 3).unwrap();
    try_approve(&mut deps, env("alice"), &human("bob"), 25).unwrap();
    let mut shown = |asker: &str, about: &str| {
        let mut later = env(asker);
        later.message.sent_funds.clear();
        try_check_allowance(&mut deps, later, human(about)).unwrap().log[3].value.clone()
    };
    assert_eq!(shown("alice", "bob").trim_end(), "25");
    assert_eq!(shown("bob", "alice").trim_end(), "3");
    assert_eq!(shown("alice", "carol").trim_end(), "0");
}

#[test]
fn a_withdrawal_with_other_coins_undoes_a_deposit() {
    let mut deps = token();
    try_deposit(&mut deps, env("bob")).unwrap();
    let mut later = env("bob");
    later.message.sent_funds.clear();
    handle(&mut deps, later, HandleMsg::Withdraw { amount: 40 }).unwrap();
    assert_eq!(deps.storage.balance(&account("bob")), 50);
    assert_eq!(deps.storage.total_supply(), 150);
}

#[test]
fn spending_is_the_newest_transfer() {
    let mut deps = token();
    try_transfer(&mut deps, env("alice"), &human("bob"), 11).unwrap();
    try_approve(&mut deps, env("alice"), &human("carol"), 25).unwrap();
    try_transfer_from(&mut deps, env("carol"), &human("alice"), &human("bob"), 20).unwrap();
    for name in ["alice", "bob"] {
        let txs = get_transfers(&deps.api, &deps.storage, &account(name), 1).unwrap();
        assert_eq!((txs.len(), txs[0].coins.amount), (1, 20));
        assert_eq!((&txs[0].sender, &txs[0].receiver), (&human("alice"), &human("bob")));
    }
    assert!(deps.storage.history(&account("carol")).is_none());
}

#[test]
fn a_made_key_opens_the_account() {
    let mut deps = token();
    let key = match send(&mut deps, "bob", HandleMsg::CreateViewingKey { entropy: "e".to_string() })
    {
        Ok(answer) => answer.log[0].value.clone(),
        Err(e) => panic!("{:?}", e),
    };
    let ask = |key: String| query(&deps, QueryMsg::Balance { address: human("bob"), key }).unwrap();
    assert_eq!(ask(key), QueryAnswer::Text(b"0.00005 SCRT".to_vec()));
    assert_ne!(ask("q".repeat(44)), QueryAnswer::Text(b"0.00005 SCRT".to_vec()));
}

#[test]
fn answers_have_one_length() {
    let mut deps = token();
    for balance in [0, 1, 999_999, 340_282_366_920_938_463_463] {
        deps.storage.set_account_balance(&account("bob"), balance);
        let answer = try_balance(&mut deps, env("bob")).unwrap();
        assert_eq!(answer.log[2].value.chars().count(), CONST_LEN);
        try_approve(&mut deps, env("bob"), &human("carol"), balance).unwrap();
        let answer = try_check_allowance(&mut deps, env("bob"), human("carol")).unwrap();
        assert_eq!(answer.log[3].value.chars().count(), CONST_LEN);
    }
}

#[test]
fn burning_undoes_minting() {
    let mut deps = token();
    send(&mut deps, "admin", HandleMsg::Mint { amount: 9, address: human("bob") }).unwrap();
    try_burn(&mut deps, env("bob"), 9).unwrap();
    assert_eq!(deps.storage.balance(&account("bob")), 50);
    assert_eq!(deps.storage.total_supply(), 150);
}

#[test]
fn numerals_and_amounts_read_back() {
    for n in [0, 7, 10, 1_000_000, 123_456_789_012, u128::MAX] {
        assert_eq!(u128_to_string(n).parse::<u128>().unwrap(), n);
    }
    let shown: Vec<String> =
        [1, 10, 100, 1_000_000, 10_000_000].iter().map(|n| to_display_token(*n, "A", 6)).collect();
    assert_eq!(shown, ["0.000001 A", "0.00001 A", "0.0001 A", "1 A", "10 A"]);
}
