use secret_token::api::Api;
use secret_token::contract::{
    authenticated_queries, init, key_opens, query, query_balance, query_transactions, try_set_key,
    try_transfer,
};
use secret_token::deps::Deps;
use secret_token::guard::question_in_range;
use secret_token::listing::{write_list, write_tx};
use secret_token::msg::{InitMsg, InitialBalance, QueryAnswer, QueryMsg};
use secret_token::state::Storage;
use secret_token::types::{CanonicalAddr, ContractInfo, Env, HumanAddr, MessageInfo, StdError};
use secret_token::viewing_key::{KeyService, ViewingKey};

fn human(name: &str) -> HumanAddr {
    HumanAddr(name.to_string())
}

fn account(name: &str) -> CanonicalAddr {
    CanonicalAddr(name.bytes().rev().collect())
}

fn env(sender: &str) -> Env {
    Env {
        message: MessageInfo { sender: human(sender), sent_funds: vec![] },
        contract: ContractInfo { address: human("contract") },
    }
}

fn token() -> Deps {
    let mut api = Api::new();
    for name in ["alice", "bob"] {
        api.answer_canonical(human(name), Ok(account(name)));
        api.answer_human(account(name), Ok(human(name)));
    }
    let mut keys = KeyService::new();
    keys.answer_digest(ViewingKey("k".repeat(44)), vec![1; 24]);
    keys.answer_digest(ViewingKey("q".repeat(44)), vec![2; 24]);
    keys.answer_digest(ViewingKey("z".repeat(44)), vec![0; 24]);
    keys.answer_digest(ViewingKey("no".to_string()), vec![3; 24]);
    let mut deps = Deps { storage: Storage::new(), api, keys };
    let msg = InitMsg {
        name: "secret".to_string(),
        admin: human("alice"),
        symbol: "SCRT".to_string(),
        decimals: 6,
        initial_balances: vec![InitialBalance { address: human("alice"), amount: 2_500_000 }],
    };
    init(&mut deps, env("alice"), msg).unwrap();
    deps
}

fn ask_balance(address: &str, key: &str) -> QueryMsg {
    QueryMsg::Balance { address: human(address), key: key.to_string() }
}

fn ask(deps: &Deps, msg: QueryMsg) -> Result<QueryAnswer, StdError> {
    assert!(question_in_range(deps, &msg));
    query(deps, msg)
}

fn text(s: &str) -> QueryAnswer {
    QueryAnswer::Text(s.as_bytes().to_vec())
}

#[derive(Debug)]
#[allow(dead_code)]
struct Tx {
    sender: cosmwasm_std::HumanAddr,
    receiver: cosmwasm_std::HumanAddr,
    coins: cosmwasm_std::Coin,
}

fn shown(txs: &[(&str, &str, u128)]) -> QueryAnswer {
    let txs: Vec<Tx> = txs
        .iter()
        .map(|(sender, receiver, amount)| Tx {
            sender: cosmwasm_std::HumanAddr::from(*sender),
            receiver: cosmwasm_std::HumanAddr::from(*receiver),
            coins: cosmwasm_std::coin(*amount, "SCRT"),
        })
        .collect();
    text(&format!("{:?}", txs))
}

fn wrong_key() -> QueryAnswer {
    text("Wrong viewing key for this address or viewing key not set")
}

#[test]
fn the_right_key_opens() {
    let mut deps = token();
    let key = "k".repeat(44);
    try_set_key(&mut deps, env("alice"), key.clone()).unwrap();
    assert_eq!(ask(&deps, ask_balance("alice", &key)).unwrap(), text("2.5 SCRT"));
    assert_eq!(
        authenticated_queries(&deps, ask_balance("alice", &key)).unwrap(),
        text("2.5 SCRT")
    );
}

#[test]
fn refusals_look_alike() {
    let mut deps = token();
    let key = "k".repeat(44);
    assert_eq!(ask(&deps, ask_balance("alice", &key)).unwrap(), wrong_key());
    try_set_key(&mut deps, env("alice"), key.clone()).unwrap();
    assert_eq!(ask(&deps, ask_balance("alice", &"q".repeat(44))).unwrap(), wrong_key());
    assert_eq!(ask(&deps, ask_balance("alice", "no")).unwrap(), wrong_key());
    assert_eq!(ask(&deps, ask_balance("bob", &key)).unwrap(), wrong_key());
    assert_eq!(
        ask(&deps, ask_balance("stranger", &key)).unwrap_err(),
        StdError::NotFound { kind: "canonical address".to_string() }
    );
}

#[test]
fn a_new_key_replaces_the_old() {
    let mut deps = token();
    try_set_key(&mut deps, env("alice"), "k".repeat(44)).unwrap();
    try_set_key(&mut deps, env("alice"), "q".repeat(44)).unwrap();
    assert_eq!(ask(&deps, ask_balance("alice", &"k".repeat(44))).unwrap(), wrong_key());
    assert_eq!(ask(&deps, ask_balance("alice", &"q".repeat(44))).unwrap(), text("2.5 SCRT"));
}

#[test]
fn transfers_are_shown_to_the_right_key() {
    let mut deps = token();
    let key = "k".repeat(44);
    try_set_key(&mut deps, env("alice"), key.clone()).unwrap();
    try_transfer(&mut deps, env("alice"), &human("bob"), 1).unwrap();
    try_transfer(&mut deps, env("alice"), &human("bob"), 2).unwrap();
    let msg = |key: &str, n: u32| QueryMsg::Transfers {
        address: human("alice"),
        key: key.to_string(),
        n,
    };
    assert_eq!(ask(&deps, msg(&key, 1)).unwrap(), shown(&[("alice", "bob", 2)]));
    assert_eq!(
        ask(&deps, msg(&key, 9)).unwrap(),
        shown(&[("alice", "bob", 2), ("alice", "bob", 1)])
    );
    assert_eq!(ask(&deps, msg(&key, 0)).unwrap(), text("[]"));
    assert_eq!(ask(&deps, msg("no", 1)).unwrap(), wrong_key());
    assert_eq!(
        query_transactions(&deps, &human("bob"), 5).unwrap(),
        shown(&[("alice", "bob", 2), ("alice", "bob", 1)])
    );
}

#[test]
fn transfers_are_written_out() {
    let mut deps = token();
    try_transfer(&mut deps, env("alice"), &human("bob"), 7).unwrap();
    assert_eq!(
        query_transactions(&deps, &human("bob"), 1).unwrap(),
        text(
            "[Tx { sender: HumanAddr(\"alice\"), receiver: HumanAddr(\"bob\"), \
             coins: Coin { denom: \"SCRT\", amount: Uint128(7) } }]"
        )
    );
}

#[test]
fn odd_addresses_are_escaped() {
    let mut deps = token();
    let odd = "q\"\\\n\u{e9}\u{7f}";
    deps.api.answer_canonical(human("odd"), Ok(account("odd")));
    deps.api.answer_human(account("odd"), Ok(human(odd)));
    try_transfer(&mut deps, env("alice"), &human("odd"), 7).unwrap();
    assert_eq!(query_transactions(&deps, &human("odd"), 1).unwrap(), shown(&[("alice", odd, 7)]));
}

#[test]
fn a_transfer_that_cannot_be_shown() {
    let mut deps = token();
    try_transfer(&mut deps, env("alice"), &human("bob"), 7).unwrap();
    let broken = StdError::InvalidUtf8 { msg: "no address".to_string() };
    deps.api.answer_human(account("bob"), Err(broken.clone()));
    assert_eq!(query_transactions(&deps, &human("alice"), 1).unwrap_err(), broken);
}

#[test]
fn lists_and_lines() {
    assert_eq!(write_list(&vec![]), "[]");
    assert_eq!(write_list(&vec!["a".to_string()]), "[a]");
    assert_eq!(
        write_list(&vec!["a".to_string(), String::new(), "c".to_string()]),
        "[a, , c]"
    );
    assert_eq!(
        write_tx("s", "r", "d", 10),
        "Tx { sender: HumanAddr(s), receiver: HumanAddr(r), \
         coins: Coin { denom: d, amount: Uint128(10) } }"
    );
}

#[test]
fn swaps_need_no_key() {
    let deps = token();
    assert_eq!(
        query(&deps, QueryMsg::Swap { nonce: 0 }).unwrap_err(),
        StdError::GenericErr { msg: "No swap with this nonce".to_string() }
    );
}

#[test]
fn range_of_questions() {
    let mut deps = token();
    let zeros = "z".repeat(44);
    assert!(!question_in_range(&deps, &ask_balance("bob", &zeros)));
    try_set_key(&mut deps, env("bob"), zeros.clone()).unwrap();
    assert!(question_in_range(&deps, &ask_balance("bob", &zeros)));
    deps.storage.set_account_balance(&account("bob"), u128::MAX);
    assert!(!question_in_range(&deps, &ask_balance("bob", &zeros)));
    assert!(question_in_range(&deps, &ask_balance("bob", "no")));
    assert!(!question_in_range(&deps, &ask_balance("bob", "never seen")));
    assert!(question_in_range(&deps, &ask_balance("stranger", "never seen")));
}

#[test]
fn only_the_set_key_opens() {
    let mut deps = token();
    try_set_key(&mut deps, env("bob"), "k".repeat(44)).unwrap();
    assert!(key_opens(&deps, &account("bob"), &ViewingKey("k".repeat(44))));
    assert!(!key_opens(&deps, &account("bob"), &ViewingKey("q".repeat(44))));
    assert!(!key_opens(&deps, &account("alice"), &ViewingKey("k".repeat(44))));
}

#[test]
fn balance_of_a_contract_that_was_not_instantiated() {
    let mut deps = token();
    deps.storage = Storage::new();
    assert_eq!(
        query_balance(&deps, &human("alice")).unwrap_err(),
        StdError::GenericErr { msg: "no constants stored in configuration".to_string() }
    );
}
