use torii::link::{gateway_next, name_next, GatewayStep, NameStep};

fn s(text: &str) -> Option<String> {
    Some(text.to_string())
}

fn gateway(primary: Option<String>, config: Option<String>, address: Option<String>) -> Option<String> {
    let step = gateway_next(GatewayStep::ReadPrimary, primary);
    let step = gateway_next(step, config);
    match gateway_next(step, address) {
        GatewayStep::Done(found) => found,
        other => panic!("{other:?}"),
    }
}

#[test]
fn a_gateway_is_found_in_three_reads() {
    assert_eq!(gateway_next(GatewayStep::ReadPrimary, s("/a/1")), GatewayStep::ReadIp4Config { connection: "/a/1".to_string() });
    assert_eq!(
        gateway_next(GatewayStep::ReadIp4Config { connection: "/a/1".to_string() }, s("/c/2")),
        GatewayStep::ReadGateway { config: "/c/2".to_string() }
    );
    assert_eq!(gateway(s("/a/1"), s("/c/2"), s("10.0.0.1")), s("10.0.0.1"));
}

#[test]
fn a_read_that_leads_nowhere_ends_the_search() {
    for bad in [None, s("/"), s("")] {
        assert_eq!(gateway(bad.clone(), s("/c/2"), s("10.0.0.1")), None);
        assert_eq!(gateway(s("/a/1"), bad, s("10.0.0.1")), None);
    }
    assert_eq!(gateway(s("/a/1"), s("/c/2"), s("")), None);
    assert_eq!(gateway(s("/a/1"), s("/c/2"), None), None);
    assert_eq!(gateway(s("/a/1"), s("/c/2"), s("/")), s("/"));
}

#[test]
fn the_name_is_that_of_the_primary_connection() {
    let step = name_next(NameStep::ReadPrimary, s("/a/1"));
    assert_eq!(step, NameStep::ReadId { connection: "/a/1".to_string() });
    assert_eq!(name_next(step, s("Café")), NameStep::Done(s("Café")));
    assert_eq!(name_next(NameStep::ReadPrimary, s("/")), NameStep::Done(None));
    assert_eq!(name_next(NameStep::ReadPrimary, None), NameStep::Done(None));
    assert_eq!(name_next(NameStep::ReadId { connection: "/a/1".to_string() }, None), NameStep::Done(None));
    assert_eq!(name_next(NameStep::Done(s("x")), s("y")), NameStep::Done(s("x")));
}
