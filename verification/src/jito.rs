//! Talking to the block engine: what is asked of it, and how its answers are read.
use vstd::prelude::*;
use vstd::string::StringExecFns;

use crate::chance;

verus! {

/// Where the block engine can be reached.
pub const JITO_ENDPOINTS: [&'static str; 4] = [
    "https://mainnet.block-engine.jito.wtf",
    "https://amsterdam.mainnet.block-engine.jito.wtf",
    "https://ny.mainnet.block-engine.jito.wtf",
    "https://tokyo.mainnet.block-engine.jito.wtf",
];

/// The path of the bundle interface.
pub const BUNDLES_PATH: &'static str = "/api/v1/bundles";

/// The content type of every request.
pub const CONTENT_TYPE: &'static str = "application/json";

/// A JSON-RPC request.
#[derive(Debug, PartialEq, Eq)]
pub struct RpcRequest {
    pub jsonrpc: String,
    pub id: u64,
    pub method: String,
    pub params: Vec<Vec<String>>,
}

/// A request with the place it goes to, its content type, and the time it may take.
#[derive(Debug, PartialEq, Eq)]
pub struct RpcCall {
    pub endpoint: String,
    pub content_type: String,
    pub timeout_secs: u64,
    pub request: RpcRequest,
}

/// Whether a call goes to the given endpoint, as JSON, and asks for the given method, with one list
/// of strings as its parameters.
pub open spec fn is_call(
    call: RpcCall,
    endpoint: int,
    timeout_secs: u64,
    method: Seq<char>,
    params: Seq<String>,
) -> bool {
    &&& call.endpoint@ == JITO_ENDPOINTS[endpoint]@ + BUNDLES_PATH@
    &&& call.content_type@ == CONTENT_TYPE@
    &&& call.timeout_secs == timeout_secs
    &&& call.request.jsonrpc@ == "2.0"@
    &&& call.request.id == 1
    &&& call.request.method@ == method
    &&& call.request.params@.len() == 1
    &&& call.request.params@[0]@ == params
}

fn bundle_call(
    endpoint: usize,
    timeout_secs: u64,
    method: &str,
    params: Vec<String>,
) -> (call: RpcCall)
    requires
        endpoint < 4,
    ensures
        is_call(call, endpoint as int, timeout_secs, method@, params@),
{
    let endpoints: [&str; 4] = JITO_ENDPOINTS;
    let mut outer: Vec<Vec<String>> = Vec::new();
    outer.push(params);
    RpcCall {
        endpoint: endpoints[endpoint].to_owned().concat(BUNDLES_PATH),
        content_type: CONTENT_TYPE.to_owned(),
        timeout_secs,
        request: RpcRequest {
            jsonrpc: "2.0".to_owned(),
            id: 1,
            method: method.to_owned(),
            params: outer,
        },
    }
}

/// The call that asks the given endpoint what has become of a bundle.
pub fn get_bundle_statuses_at(endpoint: usize, bundle_id: String) -> (call: RpcCall)
    requires
        endpoint < 4,
    ensures
        is_call(call, endpoint as int, 3, "getBundleStatuses"@, seq![bundle_id]),
        call.endpoint@ == JITO_ENDPOINTS[endpoint as int]@ + "/api/v1/bundles"@,
        call.content_type@ == "application/json"@,
        call.timeout_secs == 3,
        call.request.jsonrpc@ == "2.0"@,
        call.request.id == 1,
        call.request.method@ == "getBundleStatuses"@,
        call.request.params@.len() == 1,
        call.request.params@[0]@ == seq![bundle_id],
{
    let mut params: Vec<String> = Vec::new();
    params.push(bundle_id);
    assert(params@ =~= seq![bundle_id]);
    bundle_call(endpoint, 3, "getBundleStatuses", params)
}

/// The call that asks what has become of a bundle, to an endpoint picked at random.
pub fn get_bundle_statuses(bundle_id: String) -> (call: RpcCall)
    ensures
        exists|i: int|
            0 <= i < 4 && #[trigger] is_call(
                call,
                i,
                3,
                "getBundleStatuses"@,
                seq![bundle_id],
            ),
        exists|i: int|
            0 <= i < 4 && call.endpoint@ == (#[trigger] JITO_ENDPOINTS[i])@ + "/api/v1/bundles"@,
        call.content_type@ == "application/json"@,
        call.timeout_secs == 3,
        call.request.jsonrpc@ == "2.0"@,
        call.request.id == 1,
        call.request.method@ == "getBundleStatuses"@,
        call.request.params@.len() == 1,
        call.request.params@[0]@ == seq![bundle_id],
{
    let endpoint: usize = chance::random_index(4);
    get_bundle_statuses_at(endpoint, bundle_id)
}

/// The call that hands the given endpoint a bundle of encoded transactions.
pub fn send_jito_bundle_at(endpoint: usize, bundle: Vec<String>) -> (call: RpcCall)
    requires
        endpoint < 4,
    ensures
        is_call(call, endpoint as int, 5, "sendBundle"@, bundle@),
        call.endpoint@ == JITO_ENDPOINTS[endpoint as int]@ + "/api/v1/bundles"@,
        call.content_type@ == "application/json"@,
        call.timeout_secs == 5,
        call.request.jsonrpc@ == "2.0"@,
        call.request.id == 1,
        call.request.method@ == "sendBundle"@,
        call.request.params@.len() == 1,
        call.request.params@[0]@ == bundle@,
{
    bundle_call(endpoint, 5, "sendBundle", bundle)
}

/// The call that hands over a bundle of encoded transactions, to an endpoint picked at random.
pub fn send_jito_bundle(bundle: Vec<String>) -> (call: RpcCall)
    ensures
        exists|i: int| 0 <= i < 4 && #[trigger] is_call(call, i, 5, "sendBundle"@, bundle@),
        exists|i: int|
            0 <= i < 4 && call.endpoint@ == (#[trigger] JITO_ENDPOINTS[i])@ + "/api/v1/bundles"@,
        call.content_type@ == "application/json"@,
        call.timeout_secs == 5,
        call.request.jsonrpc@ == "2.0"@,
        call.request.id == 1,
        call.request.method@ == "sendBundle"@,
        call.request.params@.len() == 1,
        call.request.params@[0]@ == bundle@,
{
    let endpoint: usize = chance::random_index(4);
    send_jito_bundle_at(endpoint, bundle)
}

/// An answer that says that the request failed.
#[derive(Debug, PartialEq, Eq)]
pub struct StatusError {
    pub code: u16,
    pub text: String,
}

/// Passes on the text of an answer whose HTTP status code says that the request succeeded
/// (200 up to 299), and refuses any other.
pub fn accept_response(code: u16, text: String) -> (r: Result<String, StatusError>)
    ensures
        match r {
            Ok(accepted) => 200 <= code < 300 && accepted == text,
            Err(error) => !(200 <= code < 300) && error.code == code && error.text == text,
        },
{
    if 200 <= code && code < 300 {
        Ok(text)
    } else {
        Err(StatusError { code, text })
    }
}

/// What has become of a bundle.
#[derive(Debug, PartialEq, Eq)]
pub struct BundleStatus {
    pub bundle_id: String,
    pub transactions: Vec<String>,
    pub slot: u64,
    pub confirmation_status: String,
}

/// Whether the first of the bundles asked after is on the chain.
pub open spec fn has_landed(statuses: Seq<BundleStatus>) -> bool {
    statuses.len() > 0 && statuses[0].confirmation_status@ == "confirmed"@
}

/// The four places at which the block engine can be reached, and the path there.
pub proof fn law_endpoints()
    ensures
        JITO_ENDPOINTS[0]@ == "https://mainnet.block-engine.jito.wtf"@,
        JITO_ENDPOINTS[1]@ == "https://amsterdam.mainnet.block-engine.jito.wtf"@,
        JITO_ENDPOINTS[2]@ == "https://ny.mainnet.block-engine.jito.wtf"@,
        JITO_ENDPOINTS[3]@ == "https://tokyo.mainnet.block-engine.jito.wtf"@,
        BUNDLES_PATH@ == "/api/v1/bundles"@,
        CONTENT_TYPE@ == "application/json"@,
{
}

/// A bundle has landed exactly when there is a status and the first one says "confirmed": what the
/// others say, and what else the first one holds, plays no part.
pub proof fn law_first_status_decides(statuses: Seq<BundleStatus>)
    ensures
        has_landed(statuses) <==> statuses.len() > 0 && statuses[0].confirmation_status@
            == "confirmed"@,
{
}

/// Tells whether the first of the bundles asked after is on the chain.
pub fn landed(statuses: &Vec<BundleStatus>) -> (r: bool)
    ensures
        r == has_landed(statuses@),
        r <==> statuses@.len() > 0 && statuses@[0].confirmation_status@ == "confirmed"@,
{
    statuses.len() > 0 && statuses[0].confirmation_status == "confirmed".to_owned()
}

/// The page on which the first transaction of a bundle can be seen.
pub fn transaction_link(status: &BundleStatus) -> (r: String)
    requires
        status.transactions@.len() > 0,
    ensures
        r@ == "https://solscan.io/tx/"@ + status.transactions@[0]@ + "?cluster=mainnet"@,
{
    "https://solscan.io/tx/".to_owned().concat(status.transactions[0].as_str()).concat(
        "?cluster=mainnet",
    )
}

} // verus!
