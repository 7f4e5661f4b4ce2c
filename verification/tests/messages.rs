use secret_token::api::Api;
use secret_token::contract::{handle, init, key_seed, perform_transfer, query_swap};
use secret_token::deps::Deps;
use secret_token::guard::{handle_in_range, init_in_range};
use secret_token::msg::{
    HandleAnswer, HandleMsg, InitMsg, InitialBalance, QueryAnswer, ResponseStatus,
};
use secret_token::state::{get_transfers, read_allowance, read_viewing_key, Storage, Swap, Tx};
use secret_token::types::{
    BankMsg, CanonicalAddr, Coin, ContractInfo, CosmosMsg, Env, HandleResponse, HumanAddr,
    LogAttribute, MessageInfo, StdError,
};
use secret_token::utils::CONST_LEN;
use secret_token::viewing_key::{KeyRequest, KeyService, ViewingKey};

fn human(name: &str) -> HumanAddr {
    HumanAddr(name.to_string())
}

fn account(name: &str) -> CanonicalAddr {
    CanonicalAddr(name.bytes().rev().collect())
}

fn broken() -> StdError {
    StdError::InvalidUtf8 { msg: "no address".to_string() }
}

fn api() -> Api {
    let mut api = Api::new();
    for name in ["admin", "alice", "bob", "carol"] {
        api.answer_canonical(human(name), Ok(account(name)));
        api.answer_human(account(name), Ok(human(name)));
    }
    api.answer_canonical(human("broken"), Err(broken()));
    api
}

fn keys() -> KeyService {
    let mut keys = KeyService::new();
    let request = KeyRequest {
        sender: human("alice"),
        seed: b"yo".to_vec(),
        entropy: b"dice".to_vec(),
    };
    keys.answer_new_key(request, ViewingKey("made".to_string()));
    keys.answer_digest(ViewingKey("made".to_string()), vec![7, 7]);
    keys.answer_digest(ViewingKey("k".repeat(44)), vec![8]);
    keys
}

fn blank() -> Deps {
    Deps { storage: Storage::new(), api: api(), keys: keys() }
}

fn init_msg(balances: &[(&str, u128)]) -> InitMsg {
    InitMsg {
        name: "secret".to_string(),
        admin: human("admin"),
        symbol: "SCRT".to_string(),
        decimals: 6,
        initial_balances: balances
            .iter()
            .map(|(name, amount)| InitialBalance { address: human(name), amount: *amount })
            .collect(),
    }
}

fn env(sender: &str) -> Env {
    env_with(sender, &[])
}

fn env_with(sender: &str, funds: &[(&str, u128)]) -> Env {
    Env {
        message: MessageInfo {
            sender: human(sender),
            sent_funds: funds
                .iter()
                .map(|(denom, amount)| Coin { denom: denom.to_string(), amount: *amount })
                .collect(),
        },
        contract: ContractInfo { address: human("contract") },
    }
}

fn token(balances: &[(&str, u128)]) -> Deps {
    let mut deps = blank();
    let msg = init_msg(balances);
    assert!(init_in_range(&deps, &msg));
    init(&mut deps, env("admin"), msg).unwrap();
    deps
}

fn send(deps: &mut Deps, sender: &str, msg: HandleMsg) -> Result<HandleResponse, StdError> {
    let env = env(sender);
    assert!(handle_in_range(deps, &env, &msg));
    handle(deps, env, msg)
}

fn generic(msg: &str) -> StdError {
    StdError::GenericErr { msg: msg.to_string() }
}

fn lines(r: &HandleResponse) -> Vec<(&str, &str)> {
    r.log.iter().map(|l: &LogAttribute| (l.key.as_str(), l.value.as_str())).collect()
}

fn transfer(to: &str, amount: u128) -> HandleMsg {
    HandleMsg::Transfer { recipient: human(to), amount }
}

#[test]
fn init_gives_out_balances() {
    let deps = token(&[("alice", 10), ("bob", 5)]);
    assert_eq!(deps.storage.balance(&account("alice")), 10);
    assert_eq!(deps.storage.balance(&account("bob")), 5);
    assert_eq!(deps.storage.balance(&account("carol")), 0);
    assert_eq!(deps.storage.total_supply(), 15);
    let constants = deps.storage.constants().unwrap();
    assert_eq!(constants.name, "secret");
    assert_eq!(constants.symbol, "SCRT");
    assert_eq!(constants.decimals, 6);
    assert_eq!(constants.admin, human("admin"));
}

#[test]
fn init_with_an_account_named_twice() {
    let deps = token(&[("alice", 10), ("alice", 4)]);
    assert_eq!(deps.storage.balance(&account("alice")), 4);
    assert_eq!(deps.storage.total_supply(), 14);
}

#[test]
fn init_refusals() {
    let mut deps = blank();
    let mut msg = init_msg(&[("alice", 1)]);
    msg.name = "ab".to_string();
    assert_eq!(
        init(&mut deps, env("admin"), msg).unwrap_err(),
        generic("Name is not in the expected format (3-30 UTF-8 bytes)")
    );
    assert_eq!(deps.storage.balance(&account("alice")), 1);
    assert!(deps.storage.constants().is_err());

    let mut msg = init_msg(&[]);
    msg.symbol = "scrt".to_string();
    assert_eq!(
        init(&mut blank(), env("admin"), msg).unwrap_err(),
        generic("Ticker symbol is not in expected format [A-Z]{3,6}")
    );

    let mut msg = init_msg(&[]);
    msg.decimals = 19;
    assert_eq!(
        init(&mut blank(), env("admin"), msg).unwrap_err(),
        generic("Decimals must not exceed 18")
    );
    let mut msg = init_msg(&[]);
    msg.decimals = 18;
    assert!(init(&mut blank(), env("admin"), msg).is_ok());

    let mut deps = blank();
    let msg = init_msg(&[("alice", 1), ("broken", 2), ("bob", 3)]);
    assert_eq!(init(&mut deps, env("admin"), msg).unwrap_err(), broken());
    assert_eq!(deps.storage.balance(&account("alice")), 1);
    assert_eq!(deps.storage.balance(&account("bob")), 0);
}

#[test]
fn init_range() {
    assert!(!init_in_range(&blank(), &init_msg(&[("alice", u128::MAX), ("bob", 1)])));
    assert!(init_in_range(&blank(), &init_msg(&[("alice", u128::MAX), ("bob", 0)])));
    let stops = init_msg(&[("alice", u128::MAX), ("broken", 1), ("bob", 1)]);
    assert!(init_in_range(&blank(), &stops));
}

#[test]
fn deposit_counts_the_last_native_coin() {
    let mut deps = token(&[("alice", 10)]);
    let env = env_with("alice", &[("uscrt", 3), ("uatom", 9), ("uscrt", 4), ("uosmo", 2)]);
    let r = handle(&mut deps, env, HandleMsg::Deposit).unwrap();
    assert_eq!(lines(&r), vec![("action", "deposit"), ("account", "alice"), ("amount", "4")]);
    assert_eq!(r.data, None);
    assert!(r.messages.is_empty());
    assert_eq!(deps.storage.balance(&account("alice")), 14);
    assert_eq!(deps.storage.total_supply(), 14);
}

#[test]
fn deposit_refusals() {
    let mut deps = token(&[]);
    let nothing = generic("Lol send some funds dude");
    assert_eq!(send(&mut deps, "alice", HandleMsg::Deposit).unwrap_err(), nothing);
    let env = env_with("alice", &[("uatom", 3)]);
    assert_eq!(handle(&mut deps, env, HandleMsg::Deposit).unwrap_err(), nothing);
    let env = env_with("alice", &[("uscrt", 3), ("uscrt", 0)]);
    assert_eq!(handle(&mut deps, env, HandleMsg::Deposit).unwrap_err(), nothing);
    let env = env_with("broken", &[("uscrt", 3)]);
    assert_eq!(handle(&mut deps, env, HandleMsg::Deposit).unwrap_err(), broken());
    let env = env_with("stranger", &[("uscrt", 3)]);
    assert_eq!(
        handle(&mut deps, env, HandleMsg::Deposit).unwrap_err(),
        StdError::NotFound { kind: "canonical address".to_string() }
    );
    assert_eq!(deps.storage.total_supply(), 0);
}

#[test]
fn withdraw_sends_native_coins() {
    let mut deps = token(&[("alice", 10), ("bob", 1)]);
    let r = send(&mut deps, "alice", HandleMsg::Withdraw { amount: 10 }).unwrap();
    assert_eq!(
        r.messages,
        vec![CosmosMsg::Bank(BankMsg::Send {
            from_address: human("contract"),
            to_address: human("alice"),
            amount: vec![Coin { denom: "uscrt".to_string(), amount: 10 }],
        })]
    );
    assert_eq!(lines(&r), vec![("action", "withdraw"), ("account", "alice"), ("amount", "10")]);
    assert_eq!(deps.storage.balance(&account("alice")), 0);
    assert_eq!(deps.storage.total_supply(), 1);
    assert_eq!(
        send(&mut deps, "alice", HandleMsg::Withdraw { amount: 1 }).unwrap_err(),
        generic("insufficient funds to burn: balance=0, required=1")
    );
}

#[test]
fn withdraw_undoes_deposit() {
    let mut deps = token(&[("alice", 10)]);
    let env = env_with("bob", &[("uscrt", 6)]);
    handle(&mut deps, env, HandleMsg::Deposit).unwrap();
    send(&mut deps, "bob", HandleMsg::Withdraw { amount: 6 }).unwrap();
    assert_eq!(deps.storage.balance(&account("bob")), 0);
    assert_eq!(deps.storage.balance(&account("alice")), 10);
    assert_eq!(deps.storage.total_supply(), 10);
}

#[test]
fn burn_destroys() {
    let mut deps = token(&[("alice", 10)]);
    let r = send(&mut deps, "alice", HandleMsg::Burn { amount: 3 }).unwrap();
    assert_eq!(lines(&r), vec![("action", "burn"), ("account", "alice"), ("amount", "3")]);
    assert!(r.messages.is_empty());
    assert_eq!(deps.storage.balance(&account("alice")), 7);
    assert_eq!(deps.storage.total_supply(), 7);
    assert_eq!(
        send(&mut deps, "alice", HandleMsg::Burn { amount: 8 }).unwrap_err(),
        generic("insufficient funds to burn: balance=7, required=8")
    );
    assert_eq!(send(&mut deps, "broken", HandleMsg::Burn { amount: 0 }).unwrap_err(), broken());
}

#[test]
fn range_of_messages() {
    let mut deps = token(&[("alice", 10)]);
    deps.storage.set_total_supply(4);
    assert!(!handle_in_range(&deps, &env("alice"), &HandleMsg::Burn { amount: 5 }));
    assert!(handle_in_range(&deps, &env("alice"), &HandleMsg::Burn { amount: 4 }));
    assert!(handle_in_range(&deps, &env("alice"), &HandleMsg::Burn { amount: 11 }));
    deps.storage.set_total_supply(u128::MAX);
    let funded = env_with("alice", &[("uscrt", 1)]);
    assert!(!handle_in_range(&deps, &funded, &HandleMsg::Deposit));
    let mint = HandleMsg::Mint { amount: 1, address: human("bob") };
    assert!(!handle_in_range(&deps, &env("admin"), &mint));
    assert!(handle_in_range(&deps, &env("bob"), &mint));
}

#[test]
fn mint_by_the_admin() {
    let mut deps = token(&[("alice", 10)]);
    let mint = |name: &str| HandleMsg::Mint { amount: 5, address: human(name) };
    let r = send(&mut deps, "admin", mint("bob")).unwrap();
    assert_eq!(r.data, Some(HandleAnswer::Mint { status: ResponseStatus::Success }));
    assert!(r.log.is_empty() && r.messages.is_empty());
    assert_eq!(deps.storage.balance(&account("bob")), 5);
    assert_eq!(deps.storage.total_supply(), 15);
    assert_eq!(
        send(&mut deps, "alice", mint("alice")).unwrap_err(),
        generic("Admin commands can only be ran from admin address")
    );
    assert_eq!(deps.storage.total_supply(), 15);
    assert_eq!(send(&mut deps, "admin", mint("broken")).unwrap_err(), broken());
    assert_eq!(deps.storage.total_supply(), 20);
    send(&mut deps, "bob", HandleMsg::Burn { amount: 5 }).unwrap();
    assert_eq!(deps.storage.balance(&account("bob")), 0);
    assert_eq!(deps.storage.total_supply(), 15);
}

#[test]
fn admin_is_handed_over() {
    let mut deps = token(&[]);
    let change = |name: &str| HandleMsg::ChangeAdmin { address: human(name) };
    let guarded = generic("Admin commands can only be ran from admin address");
    assert_eq!(send(&mut deps, "alice", change("alice")).unwrap_err(), guarded);
    let r = send(&mut deps, "admin", change("alice")).unwrap();
    assert_eq!(r, HandleResponse { messages: vec![], log: vec![], data: None });
    assert_eq!(send(&mut deps, "admin", change("admin")).unwrap_err(), guarded);
    let constants = deps.storage.constants().unwrap();
    assert_eq!(constants.admin, human("alice"));
    assert_eq!(constants.name, "secret");
}

#[test]
fn transfer_moves_and_records() {
    let mut deps = token(&[("alice", 10), ("bob", 1)]);
    let r = send(&mut deps, "alice", transfer("bob", 4)).unwrap();
    assert_eq!(
        lines(&r),
        vec![("action", "transfer"), ("sender", "alice"), ("recipient", "bob")]
    );
    assert_eq!(r.data, Some(HandleAnswer::Transfer { status: ResponseStatus::Success }));
    assert_eq!(deps.storage.balance(&account("alice")), 6);
    assert_eq!(deps.storage.balance(&account("bob")), 5);
    assert_eq!(deps.storage.total_supply(), 11);
    let tx = Tx {
        sender: human("alice"),
        receiver: human("bob"),
        coins: Coin { denom: "SCRT".to_string(), amount: 4 },
    };
    for name in ["alice", "bob"] {
        let txs = get_transfers(&deps.api, &deps.storage, &account(name), 9).unwrap();
        assert_eq!(txs.len(), 1);
        assert_eq!(txs[0], tx);
    }
    assert!(get_transfers(&deps.api, &deps.storage, &account("carol"), 9).unwrap().is_empty());
}

#[test]
fn transfers_come_newest_first() {
    let mut deps = token(&[("alice", 10)]);
    for amount in 1..4 {
        send(&mut deps, "alice", transfer("bob", amount)).unwrap();
    }
    let amounts = |n: u32| -> Vec<u128> {
        get_transfers(&deps.api, &deps.storage, &account("bob"), n)
            .unwrap()
            .iter()
            .map(|tx| tx.coins.amount)
            .collect()
    };
    assert_eq!(amounts(0), Vec::<u128>::new());
    assert_eq!(amounts(2), vec![3, 2]);
    assert_eq!(amounts(7), vec![3, 2, 1]);
}

#[test]
fn transfers_that_cannot_be_shown() {
    let mut deps = token(&[("alice", 10)]);
    send(&mut deps, "alice", transfer("bob", 1)).unwrap();
    deps.api.answer_human(account("bob"), Err(broken()));
    let r = get_transfers(&deps.api, &deps.storage, &account("alice"), 1);
    assert_eq!(r.unwrap_err(), broken());
    assert!(get_transfers(&deps.api, &deps.storage, &account("alice"), 0).is_ok());
}

#[test]
fn transfer_to_oneself() {
    let mut deps = token(&[("alice", 10)]);
    send(&mut deps, "alice", transfer("alice", 10)).unwrap();
    assert_eq!(deps.storage.balance(&account("alice")), 10);
    let txs = get_transfers(&deps.api, &deps.storage, &account("alice"), 9).unwrap();
    assert_eq!(txs.len(), 1);
}

#[test]
fn transfer_refusals() {
    let mut deps = token(&[("alice", 10)]);
    assert_eq!(
        send(&mut deps, "alice", transfer("bob", 11)).unwrap_err(),
        generic("Insufficient funds: balance=10, required=11")
    );
    assert_eq!(send(&mut deps, "broken", transfer("bob", 1)).unwrap_err(), broken());
    assert_eq!(send(&mut deps, "alice", transfer("broken", 1)).unwrap_err(), broken());
    assert_eq!(deps.storage.balance(&account("alice")), 10);

    let mut deps = blank();
    assert_eq!(
        send(&mut deps, "alice", transfer("bob", 0)).unwrap_err(),
        generic("no constants stored in configuration")
    );
}

#[test]
fn transfer_to_the_too_rich() {
    let mut store = Storage::new();
    store.set_account_balance(&account("alice"), 2);
    store.set_account_balance(&account("bob"), u128::MAX);
    assert_eq!(
        perform_transfer(&mut store, &account("alice"), &account("bob"), 1).unwrap_err(),
        generic("This tx will literally make them too rich. Try transferring less")
    );
    assert_eq!(store.balance(&account("alice")), 1);
    assert_eq!(store.balance(&account("bob")), u128::MAX);
}

#[test]
fn allowances() {
    let mut deps = token(&[("alice", 10)]);
    let approve = |amount: u128| HandleMsg::Approve { spender: human("bob"), amount };
    let take = |amount: u128| HandleMsg::TransferFrom {
        owner: human("alice"),
        recipient: human("carol"),
        amount,
    };
    assert_eq!(
        send(&mut deps, "bob", take(1)).unwrap_err(),
        generic("Insufficient allowance: allowance=0, required=1")
    );
    let r = send(&mut deps, "alice", approve(6)).unwrap();
    assert_eq!(lines(&r), vec![("action", "approve"), ("owner", "alice"), ("spender", "bob")]);
    assert_eq!(r.data, None);
    let r = send(&mut deps, "bob", take(4)).unwrap();
    assert_eq!(
        lines(&r),
        vec![
            ("action", "transfer_from"),
            ("spender", "bob"),
            ("sender", "alice"),
            ("recipient", "carol")
        ]
    );
    assert_eq!(r.data, None);
    assert_eq!(deps.storage.balance(&account("alice")), 6);
    assert_eq!(deps.storage.balance(&account("bob")), 0);
    assert_eq!(deps.storage.balance(&account("carol")), 4);
    assert_eq!(read_allowance(&deps.storage, &account("alice"), &account("bob")), Ok(2));
    assert_eq!(read_allowance(&deps.storage, &account("bob"), &account("alice")), Ok(0));
    assert_eq!(
        send(&mut deps, "bob", take(3)).unwrap_err(),
        generic("Insufficient allowance: allowance=2, required=3")
    );
    send(&mut deps, "alice", approve(100)).unwrap();
    assert_eq!(
        send(&mut deps, "bob", take(7)).unwrap_err(),
        generic("Insufficient funds: balance=6, required=7")
    );
    let txs = get_transfers(&deps.api, &deps.storage, &account("carol"), 1).unwrap();
    assert_eq!(txs[0].sender, human("alice"));
}

#[test]
fn allowance_that_cannot_be_read() {
    let mut deps = token(&[("alice", 10)]);
    deps.storage.set_allowance_bytes(&account("alice"), &account("bob"), vec![1, 2]);
    let take = HandleMsg::TransferFrom {
        owner: human("alice"),
        recipient: human("carol"),
        amount: 0,
    };
    assert_eq!(
        send(&mut deps, "bob", take).unwrap_err(),
        generic("Corrupted data found. 16 byte expected.")
    );
    let ask = HandleMsg::Allowance { spender: human("bob") };
    let r = send(&mut deps, "alice", ask).unwrap();
    assert_eq!(r.log[3].value.trim_end(), "0");
}

#[test]
fn asking_for_an_allowance() {
    let mut deps = token(&[]);
    send(&mut deps, "alice", HandleMsg::Approve { spender: human("bob"), amount: 123 }).unwrap();
    let ask = |name: &str| HandleMsg::Allowance { spender: human(name) };
    let r = send(&mut deps, "alice", ask("bob")).unwrap();
    assert_eq!(r.log[0].value, "check_allowance");
    assert_eq!(r.log[1].value, "alice");
    assert_eq!(r.log[2].value, "bob");
    assert_eq!(r.log[3].key, "amount");
    assert_eq!(r.log[3].value.trim_end(), "123");
    assert_eq!(r.log[3].value.len(), CONST_LEN);
    let r = send(&mut deps, "alice", ask("carol")).unwrap();
    assert_eq!(r.log[3].value.trim_end(), "0");
    assert_eq!(r.log[3].value.len(), CONST_LEN);
    assert_eq!(send(&mut deps, "alice", ask("broken")).unwrap_err(), broken());
}

#[test]
fn asking_for_the_balance() {
    let mut deps = token(&[("alice", 1_250_000)]);
    let r = send(&mut deps, "alice", HandleMsg::Balance).unwrap();
    assert_eq!(r.log[0].value, "balance");
    assert_eq!(r.log[1].value, "alice");
    assert_eq!(r.log[2].value.trim_end(), "1.25 SCRT");
    assert_eq!(r.log[2].value.len(), CONST_LEN);
    let r = send(&mut deps, "bob", HandleMsg::Balance).unwrap();
    assert_eq!(r.log[2].value.trim_end(), "0 SCRT");
    assert_eq!(r.log[2].value.len(), CONST_LEN);
    let r = send(&mut blank(), "bob", HandleMsg::Balance).unwrap();
    assert_eq!(r.log[2].value.trim_end(), "0");
    assert_eq!(send(&mut deps, "broken", HandleMsg::Balance).unwrap_err(), broken());
}

#[test]
fn swaps_are_numbered() {
    let mut deps = token(&[("alice", 10)]);
    let swap = |amount: u128, to: &str| HandleMsg::Swap {
        amount,
        network: "ethereum".to_string(),
        destination: to.to_string(),
    };
    let r = send(&mut deps, "alice", swap(3, "there")).unwrap();
    assert_eq!(r.data, Some(HandleAnswer::Swap { status: ResponseStatus::Success }));
    assert!(r.log.is_empty());
    send(&mut deps, "alice", swap(2, "elsewhere")).unwrap();
    assert_eq!(deps.storage.balance(&account("alice")), 5);
    assert_eq!(deps.storage.total_supply(), 5);
    assert_eq!(
        query_swap(&deps, 0).unwrap(),
        QueryAnswer::Swap {
            result: Swap { destination: "there".to_string(), amount: 3, nonce: 0 }
        }
    );
    assert_eq!(
        query_swap(&deps, 1).unwrap(),
        QueryAnswer::Swap {
            result: Swap { destination: "elsewhere".to_string(), amount: 2, nonce: 1 }
        }
    );
    assert_eq!(query_swap(&deps, 2).unwrap_err(), generic("No swap with this nonce"));
    assert_eq!(
        send(&mut deps, "alice", swap(6, "there")).unwrap_err(),
        generic("insufficient funds to burn: balance=5, required=6")
    );
    assert_eq!(deps.storage.swap_count(), 2);
}

#[test]
fn setting_a_viewing_key() {
    let mut deps = token(&[]);
    let set = |key: String| HandleMsg::SetViewingKey { key };
    let r = send(&mut deps, "alice", set("short".to_string())).unwrap();
    assert_eq!(
        lines(&r),
        vec![
            ("result", "failed!"),
            ("viewing key", "viewing key must be a string exactly 44 characters!")
        ]
    );
    assert_eq!(read_viewing_key(&deps.storage, &account("alice")), None);
    let key = "k".repeat(44);
    let r = send(&mut deps, "alice", set(key.clone())).unwrap();
    assert_eq!(lines(&r), vec![("result", "success"), ("viewing key", key.as_str())]);
    assert_eq!(read_viewing_key(&deps.storage, &account("alice")), Some(vec![8]));
    assert_eq!(send(&mut deps, "broken", set(key)).unwrap_err(), broken());
    assert!(!handle_in_range(&deps, &env("alice"), &set("q".repeat(44))));
    assert!(handle_in_range(&deps, &env("broken"), &set("q".repeat(44))));
    assert!(handle_in_range(&deps, &env("alice"), &set("q".repeat(43))));
}

#[test]
fn making_a_viewing_key() {
    let mut deps = token(&[]);
    let create = |entropy: &str| HandleMsg::CreateViewingKey { entropy: entropy.to_string() };
    let r = send(&mut deps, "alice", create("dice")).unwrap();
    assert_eq!(lines(&r), vec![("viewing key", "made")]);
    assert_eq!(read_viewing_key(&deps.storage, &account("alice")), Some(vec![7, 7]));
    assert!(!handle_in_range(&deps, &env("alice"), &create("coin")));
    assert!(!handle_in_range(&deps, &env("bob"), &create("dice")));
    let request = |name: &str, entropy: &str| KeyRequest {
        sender: human(name),
        seed: key_seed(),
        entropy: entropy.as_bytes().to_vec(),
    };
    deps.keys.answer_new_key(request("alice", "coin"), ViewingKey("unhashed".to_string()));
    assert!(!handle_in_range(&deps, &env("alice"), &create("coin")));
    deps.keys.answer_new_key(request("broken", "coin"), ViewingKey("unhashed".to_string()));
    assert_eq!(send(&mut deps, "broken", create("coin")).unwrap_err(), broken());
    assert_eq!(key_seed(), b"yo".to_vec());
}
