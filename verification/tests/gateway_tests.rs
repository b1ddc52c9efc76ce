use base64::Engine;
use pin_gate::codec::DecodeError;
use pin_gate::gateway::{
    proxy, proxy_admitted, proxy_request, Action, Event, ForwardOutcome, Settings, Stage,
};
use pin_gate::policy::{Admission, Claim, Method, RequestHead};
use pin_gate::polkadot::{AccountLookup, ConnectionError};
use pin_gate::reason::{BackendFailure, CredentialFault, DenyReason};
use pin_gate::reply::{accepted, bad_request, denial, Reply, ACCEPTED, BAD_REQUEST};
use sp_core::crypto::Ss58Codec;
use sp_core::Pair;

fn settings() -> Settings {
    Settings { chain_rpc: "ws://127.0.0.1:9944".to_string(), token_min: 1_000_000 }
}

fn header(name: &str, value: &str) -> (String, String) {
    (name.to_string(), value.to_string())
}

fn refusal(words: &str) -> Reply {
    Reply {
        status: 400,
        headers: vec![header("Access-Control-Allow-Origin", "*")],
        body: words.to_string(),
    }
}

fn request(method: Method, path: &str, query: Option<&str>, auth: Option<String>) -> RequestHead {
    RequestHead {
        method,
        path: path.to_string(),
        query: query.map(|q| q.to_string()),
        authorization: auth.map(|a| a.into_bytes()),
    }
}

fn credential(signer: &sp_core::sr25519::Pair, address: &str, cid: &str) -> String {
    let signature = signer.sign(format!("<Bytes>{address}/{cid}</Bytes>").as_bytes());
    let text = format!("{address}:0x{}", hex::encode(signature.0));
    format!("Bearer {}", base64::engine::general_purpose::STANDARD.encode(text))
}

type Wire = &'static str;

fn first_step(head: RequestHead) -> (Stage<Wire>, Action<Wire, Wire>) {
    proxy(Stage::Idle, Event::Request(head, "the request"), &settings())
}

fn on_balance(lookup: AccountLookup) -> (Stage<Wire>, Action<Wire, Wire>) {
    proxy(Stage::AwaitingBalance("the request"), Event::Balance(lookup), &settings())
}

fn on_backend(outcome: ForwardOutcome<Wire>) -> (Stage<Wire>, Action<Wire, Wire>) {
    proxy(Stage::AwaitingBackend, Event::Backend(outcome), &settings())
}

#[test]
fn accepted_is_202_with_both_headers_and_no_body() {
    let reply = accepted();
    assert_eq!(reply.status, 202);
    assert_eq!(ACCEPTED, 202);
    assert_eq!(
        reply.headers,
        vec![
            header("Access-Control-Allow-Origin", "*"),
            header("Access-Control-Allow-Headers", "authorization"),
        ]
    );
    assert_eq!(reply.body, "");
}

#[test]
fn bad_request_is_400_with_the_words_as_body() {
    assert_eq!(BAD_REQUEST, 400);
    assert_eq!(bad_request("nope".to_string()), refusal("nope"));
    assert_eq!(bad_request(String::new()), refusal(""));
}

#[test]
fn every_reason_has_its_words() {
    let words = |reason: DenyReason| reason.message("ws://node");
    assert_eq!(words(DenyReason::NotAllowed), "Incorrect api call");
    assert_eq!(words(DenyReason::MissingAuth), "Missing required authorization header");
    assert_eq!(
        words(DenyReason::BadCredentials(CredentialFault::Undecodable(DecodeError::HeaderNotText))),
        "Failed to extract parts: header value is not text"
    );
    assert_eq!(
        words(DenyReason::BadCredentials(CredentialFault::Undecodable(DecodeError::Base64))),
        "Failed to extract parts: token is not base64"
    );
    assert_eq!(
        words(DenyReason::BadCredentials(CredentialFault::Undecodable(DecodeError::Utf8))),
        "Failed to extract parts: credential is not UTF-8"
    );
    assert_eq!(
        words(DenyReason::BadCredentials(CredentialFault::NotAPair)),
        "Failed to parse extracted parts"
    );
    assert_eq!(words(DenyReason::MissingArgument), "Failed to extract CID");
    assert_eq!(words(DenyReason::BadSignatureEncoding), "Failed to decode signature");
    assert_eq!(words(DenyReason::BadAddress), "Failed to parse address");
    assert_eq!(words(DenyReason::SignatureMismatch), "Incorrect signature");
    assert_eq!(
        words(DenyReason::RemoteUnavailable(ConnectionError::Unreachable)),
        "Failed to connect to remote rpc ws://node"
    );
    assert_eq!(
        words(DenyReason::RemoteUnavailable(ConnectionError::Query("timed out".to_string()))),
        "timed out"
    );
    assert_eq!(
        words(DenyReason::RemoteUnavailable(ConnectionError::Undecodable)),
        "Failed to decode balance"
    );
    assert_eq!(words(DenyReason::NoBalance), "No balance");
    assert_eq!(words(DenyReason::BalanceTooLow), "Balance too low");
    assert_eq!(words(DenyReason::BackendUnavailable(BackendFailure::Connect)), "Failed to connect to proxy");
    assert_eq!(
        words(DenyReason::BackendUnavailable(BackendFailure::Send)),
        "Failed to send request to proxy"
    );
}

#[test]
fn denial_is_a_400_in_the_words_of_the_reason() {
    assert_eq!(denial(&DenyReason::NoBalance, "ws://node"), refusal("No balance"));
    assert_eq!(
        denial(&DenyReason::RemoteUnavailable(ConnectionError::Unreachable), "ws://node"),
        refusal("Failed to connect to remote rpc ws://node")
    );
}

#[test]
fn proxy_admitted_answers_or_asks() {
    let s = settings();
    assert_eq!(
        proxy_admitted::<Wire, Wire>(Admission::Preflight, "the request", &s),
        (Stage::Done, Action::Respond(accepted()))
    );
    assert_eq!(
        proxy_admitted::<Wire, Wire>(Admission::Denied(DenyReason::BadAddress), "the request", &s),
        (Stage::Done, Action::Respond(refusal("Failed to parse address")))
    );
    let claim = Claim { address: "addr".to_string(), account: vec![9; 32] };
    assert_eq!(
        proxy_admitted::<Wire, Wire>(Admission::Pending(claim.clone()), "the request", &s),
        (Stage::AwaitingBalance("the request"), Action::QueryBalance(claim))
    );
}

#[test]
fn options_anything_is_accepted() {
    let (stage, action) = first_step(request(Method::Options, "/anything", None, None));
    assert_eq!(stage, Stage::Done);
    assert_eq!(action, Action::Respond(accepted()));
    match action {
        Action::Respond(reply) => {
            assert_eq!(reply.status, 202);
            assert!(reply.headers.contains(&header("Access-Control-Allow-Origin", "*")));
            assert!(reply.headers.contains(&header("Access-Control-Allow-Headers", "authorization")));
            assert!(reply.body.is_empty());
        },
        other => panic!("{other:?}"),
    }
}

#[test]
fn other_methods_and_paths_are_an_incorrect_api_call() {
    for (method, path) in [
        (Method::Other, "/api/v0/pin/add"),
        (Method::Post, "/api/v0/block/get"),
        (Method::Post, "/"),
        (Method::Other, "/"),
        (Method::Post, "/api/v0/pin"),
    ] {
        let (stage, action) = first_step(request(method, path, Some("arg=QmXYZ"), None));
        assert_eq!(stage, Stage::Done);
        assert_eq!(action, Action::Respond(refusal("Incorrect api call")), "{path}");
    }
}

#[test]
fn post_without_authorization_is_refused() {
    let (stage, action) = first_step(request(Method::Post, "/api/v0/pin/add", Some("arg=QmXYZ"), None));
    assert_eq!(stage, Stage::Done);
    assert_eq!(action, Action::Respond(refusal("Missing required authorization header")));
}

#[test]
fn valid_request_asks_for_the_balance_and_is_kept() {
    let alice = sp_core::sr25519::Pair::from_string("//Alice", None).unwrap();
    let address = alice.public().to_ss58check();
    let req = request(
        Method::Post,
        "/api/v0/pin/add",
        Some("arg=QmXYZ"),
        Some(credential(&alice, &address, "QmXYZ")),
    );
    let (stage, action) = first_step(req);
    assert_eq!(stage, Stage::AwaitingBalance("the request"));
    assert_eq!(action, Action::QueryBalance(Claim { address, account: alice.public().0.to_vec() }));
}

#[test]
fn valid_signature_without_balance_is_refused() {
    let alice = sp_core::sr25519::Pair::from_string("//Alice", None).unwrap();
    let address = alice.public().to_ss58check();
    let req = request(
        Method::Post,
        "/api/v0/pin/add",
        Some("arg=QmXYZ"),
        Some(credential(&alice, &address, "QmXYZ")),
    );
    let (stage, _) = first_step(req);
    assert_eq!(stage, Stage::AwaitingBalance("the request"));
    let (stage, action) = proxy::<Wire, Wire>(stage, Event::Balance(AccountLookup::Missing), &settings());
    assert_eq!(stage, Stage::Done);
    match action {
        Action::Respond(reply) => {
            assert_eq!(reply.status, 400);
            assert!(reply.body.contains("No balance"));
        },
        other => panic!("{other:?}"),
    }
}

#[test]
fn invalid_signature_is_refused_before_any_network_call() {
    let alice = sp_core::sr25519::Pair::from_string("//Alice", None).unwrap();
    let bob = sp_core::sr25519::Pair::from_string("//Bob", None).unwrap();
    let address = alice.public().to_ss58check();
    let req = request(
        Method::Post,
        "/api/v0/pin/add",
        Some("arg=QmXYZ"),
        Some(credential(&bob, &address, "QmXYZ")),
    );
    let (stage, action) = first_step(req);
    assert_eq!(stage, Stage::Done);
    match action {
        Action::Respond(reply) => {
            assert_eq!(reply.status, 400);
            assert!(reply.body.contains("Incorrect signature"));
        },
        other => panic!("{other:?}"),
    }
}

#[test]
fn refused_backend_connection_is_a_400() {
    let (stage, action) = on_balance(AccountLookup::Entry(Some(1_000_000)));
    assert_eq!((stage.clone(), action), (Stage::AwaitingBackend, Action::Forward("the request")));
    let (stage, action) =
        proxy::<Wire, Wire>(stage, Event::Backend(ForwardOutcome::ConnectFailed), &settings());
    assert_eq!(stage, Stage::Done);
    assert_eq!(action, Action::Respond(refusal("Failed to connect to proxy")));
}

#[test]
fn failed_send_is_a_400() {
    let (stage, action) = on_backend(ForwardOutcome::SendFailed);
    assert_eq!(stage, Stage::Done);
    assert_eq!(action, Action::Respond(refusal("Failed to send request to proxy")));
}

#[test]
fn backend_response_is_relayed_as_it_is() {
    let response = "HTTP/1.1 500 Internal Server Error\r\nX-Odd-Case: 1\r\n\r\nbody".to_string();
    let (stage, action) = proxy::<Wire, String>(
        Stage::AwaitingBackend,
        Event::Backend(ForwardOutcome::Responded(response.clone())),
        &settings(),
    );
    assert_eq!(stage, Stage::Done);
    assert_eq!(action, Action::Relay(response));
}

#[test]
fn proxy_request_relays_or_refuses() {
    assert_eq!(proxy_request(ForwardOutcome::Responded(vec![1u8, 2, 3])), Ok(vec![1u8, 2, 3]));
    assert_eq!(
        proxy_request::<Vec<u8>>(ForwardOutcome::ConnectFailed),
        Err(DenyReason::BackendUnavailable(BackendFailure::Connect))
    );
    assert_eq!(
        proxy_request::<Vec<u8>>(ForwardOutcome::SendFailed),
        Err(DenyReason::BackendUnavailable(BackendFailure::Send))
    );
}

#[test]
fn balance_decides_between_forwarding_and_refusing() {
    assert_eq!(
        on_balance(AccountLookup::Entry(Some(1_000_000))),
        (Stage::AwaitingBackend, Action::Forward("the request"))
    );
    assert_eq!(
        on_balance(AccountLookup::Entry(Some(u128::MAX))),
        (Stage::AwaitingBackend, Action::Forward("the request"))
    );
    assert_eq!(
        on_balance(AccountLookup::Entry(Some(999_999))),
        (Stage::Done, Action::Respond(refusal("Balance too low")))
    );
    assert_eq!(on_balance(AccountLookup::Missing), (Stage::Done, Action::Respond(refusal("No balance"))));
    assert_eq!(
        on_balance(AccountLookup::Unreachable),
        (Stage::Done, Action::Respond(refusal("Failed to connect to remote rpc ws://127.0.0.1:9944")))
    );
    assert_eq!(
        on_balance(AccountLookup::Failed("connection reset".to_string())),
        (Stage::Done, Action::Respond(refusal("connection reset")))
    );
    assert_eq!(
        on_balance(AccountLookup::Entry(None)),
        (Stage::Done, Action::Respond(refusal("Failed to decode balance")))
    );
}

#[test]
fn events_out_of_turn_change_nothing() {
    let s = settings();
    let rich = || Event::<Wire, Wire>::Balance(AccountLookup::Entry(Some(u128::MAX)));
    let answered = || Event::<Wire, Wire>::Backend(ForwardOutcome::Responded("response"));
    let arrived = || Event::<Wire, Wire>::Request(request(Method::Options, "/", None, None), "another");
    let waiting = || Stage::AwaitingBalance("the request");

    assert_eq!(proxy(Stage::Idle, rich(), &s), (Stage::Idle, Action::Ignore));
    assert_eq!(proxy(Stage::Idle, answered(), &s), (Stage::Idle, Action::Ignore));
    assert_eq!(proxy(waiting(), answered(), &s), (waiting(), Action::Ignore));
    assert_eq!(proxy(waiting(), arrived(), &s), (waiting(), Action::Ignore));
    assert_eq!(proxy(Stage::AwaitingBackend, rich(), &s), (Stage::AwaitingBackend, Action::Ignore));
    assert_eq!(proxy(Stage::AwaitingBackend, arrived(), &s), (Stage::AwaitingBackend, Action::Ignore));
    assert_eq!(proxy(Stage::Done, arrived(), &s), (Stage::Done, Action::Ignore));
    assert_eq!(proxy(Stage::Done, rich(), &s), (Stage::Done, Action::Ignore));
    assert_eq!(proxy(Stage::Done, answered(), &s), (Stage::Done, Action::Ignore));
}

#[test]
fn a_whole_run_ends_in_the_backend_response() {
    let alice = sp_core::sr25519::Pair::from_string("//Alice", None).unwrap();
    let address = alice.public().to_ss58check();
    let s = settings();
    let head = request(
        Method::Post,
        "/api/v0/pin/verify",
        Some("arg=QmXYZ&verbose=true"),
        Some(credential(&alice, &address, "QmXYZ")),
    );
    let (stage, action) = proxy::<Wire, Wire>(Stage::Idle, Event::Request(head, "POST ..."), &s);
    assert!(matches!(action, Action::QueryBalance(_)));
    let (stage, action) = proxy::<Wire, Wire>(stage, Event::Balance(AccountLookup::Entry(Some(s.token_min))), &s);
    assert_eq!(action, Action::Forward("POST ..."));
    let (stage, action) = proxy::<Wire, Wire>(stage, Event::Backend(ForwardOutcome::Responded("pinned")), &s);
    assert_eq!((stage, action), (Stage::Done, Action::Relay("pinned")));
}
