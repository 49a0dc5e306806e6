use enso::bundle::ParamValue;
use enso::catalog::{enso_protocol, Action};
use enso::client::{Enso, Version};
use enso::messages::{bundle_from_data, plan_request, Task, UIRequest};

#[test]
fn api_addresses() {
    let enso = Enso::new("1e02632d-6feb-4a75-a157-documentation".to_string(), Version::V1);
    assert_eq!(enso.get_api_url(), "https://api.enso.finance/api/v1");
    assert_eq!(enso.endpoint("networks"), "https://api.enso.finance/api/v1/networks");
    assert_eq!(enso.bearer(), "Bearer 1e02632d-6feb-4a75-a157-documentation");
    assert_eq!(Version::V1.to_string(), "v1");
}

fn data(n: usize) -> Vec<(Action, enso::catalog::Protocol, Vec<ParamValue>)> {
    (0..n)
        .map(|i| {
            (
                Action { action: format!("a{}", i), inputs: vec![] },
                enso_protocol(),
                vec![ParamValue::Transaction(i)],
            )
        })
        .collect()
}

#[test]
fn bundle_from_data_keeps_order() {
    let b = bundle_from_data(data(3));
    assert_eq!(b.chain_id, 1);
    assert_eq!(b.transactions.len(), 3);
    for i in 0..3 {
        assert_eq!(b.transactions[i].action.action, format!("a{}", i));
        assert!(matches!(b.transactions[i].args[0], ParamValue::Transaction(j) if j == i));
    }
}

#[test]
fn plan_requests() {
    let mut chain = None;
    assert!(matches!(plan_request(&mut chain, Some(UIRequest::GetTokens)), Task::FetchTokens(1)));
    assert!(matches!(plan_request(&mut chain, Some(UIRequest::SetNetwork(10))), Task::Nothing));
    assert_eq!(chain, Some(10));
    assert!(matches!(plan_request(&mut chain, Some(UIRequest::GetTokens)), Task::FetchTokens(10)));
    assert!(matches!(plan_request(&mut chain, Some(UIRequest::GetProtocols)), Task::FetchProtocols));
    assert!(matches!(plan_request(&mut chain, Some(UIRequest::GetActions)), Task::FetchActions));
    assert!(matches!(plan_request(&mut chain, Some(UIRequest::GetNetworks)), Task::FetchNetworks));
    match plan_request(&mut chain, Some(UIRequest::SendBundle(data(2)))) {
        Task::SubmitBundle(b) => assert_eq!(b.transactions.len(), 2),
        _ => panic!("expected a bundle"),
    }
    assert!(matches!(plan_request(&mut chain, Some(UIRequest::Quit)), Task::Stop));
    assert!(matches!(plan_request(&mut chain, None), Task::Stop));
    assert_eq!(chain, Some(10));
}
