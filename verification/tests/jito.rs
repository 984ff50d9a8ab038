use ore_hq_server::auth::Config;
use ore_hq_server::jito::{
    accept_response, get_bundle_statuses, get_bundle_statuses_at, landed, send_jito_bundle,
    send_jito_bundle_at, transaction_link, BundleStatus, StatusError, JITO_ENDPOINTS,
};

fn status(confirmation_status: &str, transactions: &[&str]) -> BundleStatus {
    BundleStatus {
        bundle_id: String::from("id"),
        transactions: transactions.iter().map(|t| t.to_string()).collect(),
        slot: 1,
        confirmation_status: confirmation_status.to_string(),
    }
}

#[test]
fn status_call() {
    let call = get_bundle_statuses_at(2, String::from("abc"));
    assert_eq!(call.endpoint, "https://ny.mainnet.block-engine.jito.wtf/api/v1/bundles");
    assert_eq!(call.content_type, "application/json");
    assert_eq!(call.timeout_secs, 3);
    assert_eq!(call.request.jsonrpc, "2.0");
    assert_eq!(call.request.id, 1);
    assert_eq!(call.request.method, "getBundleStatuses");
    assert_eq!(call.request.params, vec![vec![String::from("abc")]]);
}

#[test]
fn bundle_call() {
    let bundle = vec![String::from("tx1"), String::from("tx2")];
    let call = send_jito_bundle_at(0, bundle.clone());
    assert_eq!(call.endpoint, "https://mainnet.block-engine.jito.wtf/api/v1/bundles");
    assert_eq!(call.content_type, "application/json");
    assert_eq!(call.timeout_secs, 5);
    assert_eq!(call.request.method, "sendBundle");
    assert_eq!(call.request.params, vec![bundle]);
}

#[test]
fn every_endpoint_is_called_at_times() {
    let mut seen = [false; 4];
    for i in 0..1_000 {
        let call = if i % 2 == 0 {
            get_bundle_statuses(String::from("x"))
        } else {
            send_jito_bundle(vec![])
        };
        let base = call.endpoint.strip_suffix("/api/v1/bundles").unwrap();
        let at = JITO_ENDPOINTS.iter().position(|e| *e == base).unwrap();
        seen[at] = true;
    }
    assert_eq!(seen, [true; 4]);
}

#[test]
fn only_success_codes_are_accepted() {
    let text = || String::from("body");
    assert_eq!(accept_response(200, text()), Ok(text()));
    assert_eq!(accept_response(299, text()), Ok(text()));
    for code in [100, 199, 300, 404, 429, 500] {
        assert_eq!(
            accept_response(code, text()),
            Err(StatusError { code, text: text() })
        );
    }
}

#[test]
fn bundle_has_landed_when_the_first_status_says_so() {
    assert!(!landed(&vec![]));
    assert!(landed(&vec![status("confirmed", &[])]));
    assert!(!landed(&vec![status("processed", &[])]));
    assert!(!landed(&vec![status("finalized", &[]), status("confirmed", &[])]));
    assert!(!landed(&vec![status("Confirmed", &[])]));
}

#[test]
fn link_shows_the_first_transaction() {
    assert_eq!(
        transaction_link(&status("confirmed", &["sig1", "sig2"])),
        "https://solscan.io/tx/sig1?cluster=mainnet"
    );
}

#[test]
fn only_the_password_lets_in() {
    let config = Config::new(String::from("secret"));
    assert_eq!(config.authorize("secret"), Ok(()));
    for wrong in ["", "Secret", "secret ", "secre"] {
        let refusal = config.authorize(wrong).unwrap_err();
        assert_eq!(refusal.code, 401);
        assert_eq!(refusal.reason, "Invalid credentials");
    }
}
