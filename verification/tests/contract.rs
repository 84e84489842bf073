use core_invoice::contract::{
    address_to_validate, admin_candidate, execute, instantiate, query, query_all_invoices,
    query_invoice, query_payment,
};
use core_invoice::error::ContractError;
use core_invoice::msg::{Env, ExecuteMsg, InstantiateMsg, MessageInfo, QueryMsg, QueryResponse};
use core_invoice::store::ContractState;
use cosmwasm_std::testing::MockApi;
use cosmwasm_std::{Api, StdError};

const ADDR1: &str = "osmo1cyyzpxplxdzkeea7kwsydadg87357qnahakaks";
const ADDR2: &str = "osmo18s5lynnmx37hq4wlrw9gdn68sg2uxp5rgk26vv";

/// The host's answer to validating an address, as the test host gives it.
fn host_check(addr: &str) -> Result<String, StdError> {
    MockApi::default().addr_validate(addr).map(|a| a.to_string())
}

fn mock_env() -> Env {
    Env { block_time: 1_571_797_419_879_305_533 }
}

fn mock_info(sender: &str) -> MessageInfo {
    MessageInfo { sender: sender.to_string() }
}

fn do_instantiate(store: &mut ContractState, info: &MessageInfo, msg: InstantiateMsg) {
    let admin = admin_candidate(info, &msg);
    instantiate(store, host_check(&admin)).unwrap();
}

fn do_execute(
    store: &mut ContractState,
    env: &Env,
    info: &MessageInfo,
    msg: ExecuteMsg,
) -> Result<core_invoice::msg::Response, ContractError> {
    let addr = address_to_validate(info, &msg);
    execute(store, env, info, msg, host_check(&addr))
}

fn do_query(store: &ContractState, msg: QueryMsg) -> QueryResponse {
    let check = match &msg {
        QueryMsg::Payment { address, .. } => host_check(address),
        _ => Ok(String::new()),
    };
    query(store, msg, check)
}

fn create_msg(invoice_id: &str, invoiced_value: &str, date_due: &str) -> ExecuteMsg {
    ExecuteMsg::CreateInvoice {
        payer_addr: ADDR2.to_string(),
        payer_alias: "Ditobanx".to_string(),
        invoice_id: invoice_id.to_string(),
        invoiced_value: invoiced_value.to_string(),
        date_due: date_due.to_string(),
        pay_unit: "USDC".to_string(),
        receipt_unit: "USD".to_string(),
    }
}

fn pay_msg(invoice_id: &str, amount: &str, pay_unit: &str) -> ExecuteMsg {
    ExecuteMsg::PayInvoice {
        invoice_id: invoice_id.to_string(),
        payer_alias: "Ditobanx".to_string(),
        payment_amount: amount.to_string(),
        pay_unit: pay_unit.to_string(),
    }
}

#[test]
fn test_instantiate() {
    let mut store = ContractState::new();
    let info = mock_info(ADDR1);
    let msg = InstantiateMsg { admin: None };
    let admin = admin_candidate(&info, &msg);
    let res = instantiate(&mut store, host_check(&admin)).unwrap();
    let attrs: Vec<(String, String)> =
        res.attributes.iter().map(|a| (a.key.clone(), a.value.clone())).collect();
    assert_eq!(
        attrs,
        vec![
            ("action".to_string(), "instantiate".to_string()),
            ("admin".to_string(), ADDR1.to_string())
        ]
    );
}

#[test]
fn test_execute_create_invoice_valid() {
    let mut store = ContractState::new();
    let env = mock_env();
    let info = mock_info(ADDR1);
    do_instantiate(&mut store, &info, InstantiateMsg { admin: None });
    let msg = create_msg("I00000001", "1000000.0", "2023-07-01");
    let _res = do_execute(&mut store, &env, &info, msg).unwrap();
}

#[test]
fn test_execute_create_invoice_invalid() {
    let mut store = ContractState::new();
    let env = mock_env();
    let info = mock_info(ADDR1);
    do_instantiate(&mut store, &info, InstantiateMsg { admin: None });
    let msg = create_msg("I00000001", "-1000000.0", "2023-07-01");
    let _res = do_execute(&mut store, &env, &info, msg).unwrap_err();
}

#[test]
fn test_execute_payment_valid() {
    let mut store = ContractState::new();
    let env = mock_env();
    let info1 = mock_info(ADDR1);
    let info2 = mock_info(ADDR2);
    do_instantiate(&mut store, &info1, InstantiateMsg { admin: None });
    let msg = create_msg("I00000001", "1000000.0", "2023-07-01");
    let _res = do_execute(&mut store, &env, &info1, msg).unwrap();
    let msg = pay_msg("I00000001", "1000000.0", "USDC");
    let _res = do_execute(&mut store, &env, &info2, msg).unwrap();
}

#[test]
fn test_query_all_invoices() {
    let mut store = ContractState::new();
    let env = mock_env();
    let info = mock_info(ADDR1);
    do_instantiate(&mut store, &info, InstantiateMsg { admin: None });
    let msg = create_msg("I00000001", "1000000.0", "2023-07-01");
    let _res = do_execute(&mut store, &env, &info, msg).unwrap();
    let msg = create_msg("I00000002", "1000000.0", "2023-09-01");
    let _res = do_execute(&mut store, &env, &info, msg).unwrap();

    let res = match do_query(&store, QueryMsg::AllInvoices {}) {
        QueryResponse::AllInvoices(r) => r,
        _ => panic!("wrong response"),
    };
    assert_eq!(res.invoices.len(), 2);
}

#[test]
fn test_query_invoice() {
    let mut store = ContractState::new();
    let env = mock_env();
    let info = mock_info(ADDR1);
    do_instantiate(&mut store, &info, InstantiateMsg { admin: None });
    let msg = create_msg("I00000001", "1000000.0", "2023-07-01");
    let _res = do_execute(&mut store, &env, &info, msg).unwrap();

    let msg = QueryMsg::Invoice { invoice_id: "I00000001".to_string() };
    let res = match do_query(&store, msg) {
        QueryResponse::Invoice(r) => r,
        _ => panic!("wrong response"),
    };
    assert!(res.invoice.is_some());

    let msg = QueryMsg::Invoice { invoice_id: "00000111".to_string() };
    let res = match do_query(&store, msg) {
        QueryResponse::Invoice(r) => r,
        _ => panic!("wrong response"),
    };
    assert!(res.invoice.is_none());
}

#[test]
fn test_query_payment() {
    let mut store = ContractState::new();
    let env = mock_env();
    let info1 = mock_info(ADDR1);
    let info2 = mock_info(ADDR2);
    do_instantiate(&mut store, &info1, InstantiateMsg { admin: None });
    let msg = create_msg("I00000001", "1000000.0", "2023-07-01");
    let _res = do_execute(&mut store, &env, &info1, msg).unwrap();
    let msg = pay_msg("I00000001", "1000000.0", "USDC");
    let _res = do_execute(&mut store, &env, &info2, msg).unwrap();

    let msg = QueryMsg::Payment { invoice_id: "I00000001".to_string(), address: ADDR2.to_string() };
    let res = match do_query(&store, msg) {
        QueryResponse::Payment(r) => r,
        _ => panic!("wrong response"),
    };
    assert!(res.payment.is_some());

    let msg = QueryMsg::Payment { invoice_id: "000000111".to_string(), address: ADDR1.to_string() };
    let res = match do_query(&store, msg) {
        QueryResponse::Payment(r) => r,
        _ => panic!("wrong response"),
    };
    assert!(res.payment.is_none());
}

// ---- further scenarios ----

#[test]
fn created_invoice_reads_back_open_with_whole_balance() {
    let mut store = ContractState::new();
    let env = mock_env();
    let info = mock_info(ADDR1);
    do_execute(&mut store, &env, &info, create_msg("I1", "1000000.0", "2023-07-01")).unwrap();
    let inv = query_invoice(&store, &"I1".to_string()).invoice.unwrap();
    assert_eq!(inv.creator, ADDR1);
    assert_eq!(inv.payer_addr, ADDR2);
    assert_eq!(inv.invoice_id, "I1");
    assert_eq!(inv.invoiced_value, 1_000_000u128 * 1_000_000_000_000_000_000u128);
    assert_eq!(inv.balance_outstanding, inv.invoiced_value);
    assert_eq!(inv.status, "Open");
    assert_eq!(inv.date_due, "2023-07-01");
    assert_eq!(inv.pay_unit, "USDC");
    assert_eq!(inv.receipt_unit, "USD");
    assert!(inv.payment_history.is_empty());
}

#[test]
fn instantiate_with_named_admin() {
    let mut store = ContractState::new();
    let info = mock_info(ADDR1);
    let msg = InstantiateMsg { admin: Some(ADDR2.to_string()) };
    let admin = admin_candidate(&info, &msg);
    assert_eq!(admin, ADDR2);
    let res = instantiate(&mut store, host_check(&admin)).unwrap();
    assert_eq!(res.attributes[1].value, ADDR2);
    assert_eq!(store.load_config().unwrap().admin, ADDR2);
}

#[test]
fn instantiate_with_refused_admin_changes_nothing() {
    let mut store = ContractState::new();
    let info = mock_info(ADDR1);
    let msg = InstantiateMsg { admin: Some("Ab".to_string()) };
    let admin = admin_candidate(&info, &msg);
    let err = instantiate(&mut store, host_check(&admin)).unwrap_err();
    assert!(matches!(err, ContractError::Std(_)));
    assert!(store.load_config().is_none());
}

#[test]
fn zero_value_is_refused() {
    let mut store = ContractState::new();
    let env = mock_env();
    let info = mock_info(ADDR1);
    let err = do_execute(&mut store, &env, &info, create_msg("I1", "0.000", "2023-07-01")).unwrap_err();
    assert!(matches!(err, ContractError::NoInvoiceValue {}));
    assert!(query_all_invoices(&store).invoices.is_empty());
}

#[test]
fn refused_payer_address_is_refused() {
    let mut store = ContractState::new();
    let env = mock_env();
    let info = mock_info(ADDR1);
    let msg = ExecuteMsg::CreateInvoice {
        payer_addr: "NotNormalized".to_string(),
        payer_alias: "x".to_string(),
        invoice_id: "I1".to_string(),
        invoiced_value: "5".to_string(),
        date_due: "d".to_string(),
        pay_unit: "USDC".to_string(),
        receipt_unit: "USD".to_string(),
    };
    let err = do_execute(&mut store, &env, &info, msg).unwrap_err();
    assert!(matches!(err, ContractError::Std(_)));
    assert!(query_invoice(&store, &"I1".to_string()).invoice.is_none());
}

#[test]
fn partial_payments_then_closing_payment() {
    let mut store = ContractState::new();
    let env = mock_env();
    let info1 = mock_info(ADDR1);
    let info2 = mock_info(ADDR2);
    do_execute(&mut store, &env, &info1, create_msg("INV", "10", "2023-07-01")).unwrap();
    do_execute(&mut store, &env, &info2, pay_msg("INV", "2.5", "USDC")).unwrap();
    let inv = query_invoice(&store, &"INV".to_string()).invoice.unwrap();
    assert_eq!(inv.status, "Partially Paid");
    assert_eq!(inv.balance_outstanding, 7_500_000_000_000_000_000u128);
    assert_eq!(inv.payment_history.len(), 1);
    assert_eq!(inv.payment_history[0].payment_id, "INV_P1");
    assert_eq!(inv.payment_history[0].pay_date, 1_571_797_419_879_305_533);

    do_execute(&mut store, &env, &info2, pay_msg("INV", "7.5", "USDC")).unwrap();
    let inv = query_invoice(&store, &"INV".to_string()).invoice.unwrap();
    assert_eq!(inv.status, "Closed");
    assert_eq!(inv.balance_outstanding, 0);
    assert_eq!(inv.payment_history.len(), 2);
    assert_eq!(inv.payment_history[1].payment_id, "INV_P2");
    assert_eq!(inv.payment_history[1].payment_amount, 7_500_000_000_000_000_000u128);

    // the payments store keeps the latest payment of the payer on the invoice
    let p = query_payment(&store, &ADDR2.to_string(), &"INV".to_string()).payment.unwrap();
    assert_eq!(p.payment_id, "INV_P2");
    assert_eq!(p.payer_addr, ADDR2);
    assert_eq!(p.invoice_id, "INV");

    // nothing is outstanding: a further payment is refused
    let err = do_execute(&mut store, &env, &info2, pay_msg("INV", "1", "USDC")).unwrap_err();
    assert!(matches!(err, ContractError::InvalidPaymentValue {}));
}

#[test]
fn payment_errors_in_order() {
    let mut store = ContractState::new();
    let env = mock_env();
    let info1 = mock_info(ADDR1);
    let info2 = mock_info(ADDR2);
    do_execute(&mut store, &env, &info1, create_msg("INV", "10", "2023-07-01")).unwrap();

    let err = do_execute(&mut store, &env, &info2, pay_msg("INV", "abc", "USDC")).unwrap_err();
    assert!(matches!(err, ContractError::Std(_)));
    let err = do_execute(&mut store, &env, &info2, pay_msg("NONE", "1", "USDC")).unwrap_err();
    assert!(matches!(err, ContractError::Unauthorized {}));
    let err = do_execute(&mut store, &env, &info1, pay_msg("INV", "1", "USDC")).unwrap_err();
    assert!(matches!(err, ContractError::IncorrectPayer {}));
    let err = do_execute(&mut store, &env, &info2, pay_msg("INV", "0", "USDC")).unwrap_err();
    assert!(matches!(err, ContractError::InvalidPaymentValue {}));
    let err = do_execute(&mut store, &env, &info2, pay_msg("INV", "10.1", "USDC")).unwrap_err();
    assert!(matches!(err, ContractError::InvalidPaymentValue {}));
    let err = do_execute(&mut store, &env, &info2, pay_msg("INV", "1", "ATOM")).unwrap_err();
    assert!(matches!(err, ContractError::InvalidPaymentValue {}));

    let inv = query_invoice(&store, &"INV".to_string()).invoice.unwrap();
    assert_eq!(inv.status, "Open");
    assert!(inv.payment_history.is_empty());
    assert!(query_payment(&store, &ADDR2.to_string(), &"INV".to_string()).payment.is_none());
}

#[test]
fn all_invoices_come_in_ascending_id_order() {
    let mut store = ContractState::new();
    let env = mock_env();
    let info = mock_info(ADDR1);
    for id in ["b", "a", "ab", "B", "é", "a"] {
        do_execute(&mut store, &env, &info, create_msg(id, "1", "d")).unwrap();
    }
    let ids: Vec<String> =
        query_all_invoices(&store).invoices.iter().map(|i| i.invoice_id.clone()).collect();
    assert_eq!(ids, vec!["B", "a", "ab", "b", "é"]);
}

#[test]
fn creating_again_replaces_the_invoice() {
    let mut store = ContractState::new();
    let env = mock_env();
    let info1 = mock_info(ADDR1);
    let info2 = mock_info(ADDR2);
    do_execute(&mut store, &env, &info1, create_msg("I", "10", "d1")).unwrap();
    do_execute(&mut store, &env, &info2, pay_msg("I", "4", "USDC")).unwrap();
    do_execute(&mut store, &env, &info1, create_msg("I", "3", "d2")).unwrap();
    let inv = query_invoice(&store, &"I".to_string()).invoice.unwrap();
    assert_eq!(inv.date_due, "d2");
    assert_eq!(inv.invoiced_value, 3_000_000_000_000_000_000u128);
    assert_eq!(inv.status, "Open");
    assert!(inv.payment_history.is_empty());
    assert_eq!(query_all_invoices(&store).invoices.len(), 1);
}

#[test]
fn negative_payment_is_refused_as_invalid_value() {
    let mut store = ContractState::new();
    let env = mock_env();
    let info1 = mock_info(ADDR1);
    let info2 = mock_info(ADDR2);
    do_execute(&mut store, &env, &info1, create_msg("INV", "10", "2023-07-01")).unwrap();
    let err = do_execute(&mut store, &env, &info2, pay_msg("INV", "-5.0", "USDC")).unwrap_err();
    assert!(matches!(err, ContractError::InvalidPaymentValue {}));
    // the payer check comes first
    let err = do_execute(&mut store, &env, &info1, pay_msg("INV", "-5.0", "USDC")).unwrap_err();
    assert!(matches!(err, ContractError::IncorrectPayer {}));
    // a minus sign before something that is no decimal is a parse error
    let err = do_execute(&mut store, &env, &info2, pay_msg("INV", "-x", "USDC")).unwrap_err();
    assert!(matches!(err, ContractError::Std(_)));
    let inv = query_invoice(&store, &"INV".to_string()).invoice.unwrap();
    assert!(inv.payment_history.is_empty());
    assert_eq!(inv.balance_outstanding, 10_000_000_000_000_000_000u128);
}

#[test]
fn negative_invoice_value_is_refused_as_no_value() {
    let mut store = ContractState::new();
    let env = mock_env();
    let info = mock_info(ADDR1);
    let err = do_execute(&mut store, &env, &info, create_msg("I1", "-1000000.0", "2023-07-01"))
        .unwrap_err();
    assert!(matches!(err, ContractError::NoInvoiceValue {}));
    assert!(query_all_invoices(&store).invoices.is_empty());
}

#[test]
fn payments_are_recorded_with_the_invoice_payer() {
    let mut store = ContractState::new();
    let env = mock_env();
    let info1 = mock_info(ADDR1);
    let info2 = mock_info(ADDR2);
    do_execute(&mut store, &env, &info1, create_msg("INV", "3", "d")).unwrap();
    do_execute(&mut store, &env, &info2, pay_msg("INV", "1", "USDC")).unwrap();
    let inv = query_invoice(&store, &"INV".to_string()).invoice.unwrap();
    assert_eq!(inv.payment_history[0].payer_addr, inv.payer_addr);
}
