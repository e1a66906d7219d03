use dns_connector::connector::complete_resolution_with_choice;
use dns_connector::connector::plan_connection;
use dns_connector::connector::to_fqdn;
use dns_connector::connector::ConnectPlan;
use dns_connector::policy::decide_query_type;
use dns_connector::DnsAnswerSet;
use dns_connector::DnsRecord;
use dns_connector::Ipv4;
use dns_connector::QueryType;
use dns_connector::RecordData;
use dns_connector::RecordType;
use dns_connector::ResolveError;
use dns_connector::resolver::resolve_answers;
use dns_connector::resolver::resolve_with_choice;

fn a_record(name: &[u8], ip: Ipv4) -> DnsRecord {
    DnsRecord {
        name: name.to_vec(),
        data: RecordData::A(ip),
    }
}

fn srv_record(name: &[u8], target: &[u8], port: u16) -> DnsRecord {
    DnsRecord {
        name: name.to_vec(),
        data: RecordData::Srv {
            priority: 0,
            weight: 0,
            port,
            target: target.to_vec(),
        },
    }
}

fn ip(a: u8, b: u8, c: u8, d: u8) -> Ipv4 {
    Ipv4 { a, b, c, d }
}

#[test]
fn it_works() {}

#[test]
fn literal_ip_bypasses_resolution() {
    let plan = plan_connection(&b"10.0.0.5".to_vec(), Some(8080), &RecordType::AUTO);
    assert_eq!(plan, ConnectPlan::Bypass);
    let plan = plan_connection(&b"127.0.0.1".to_vec(), None, &RecordType::SRV);
    assert_eq!(plan, ConnectPlan::Bypass);
}

#[test]
fn non_literal_hosts_are_queried() {
    for host in [
        &b"example.com"[..],
        b"256.0.0.1",
        b"01.2.3.4",
        b"1.2.3",
        b"1.2.3.4.5",
        b"::1",
        b"10.0.0.5x",
        b"",
    ] {
        let plan = plan_connection(&host.to_vec(), None, &RecordType::A);
        assert!(
            matches!(plan, ConnectPlan::Query { .. }),
            "expected a query for {:?}",
            String::from_utf8_lossy(host)
        );
    }
}

#[test]
fn auto_policy_without_port_queries_srv() {
    assert_eq!(
        decide_query_type(&RecordType::AUTO, None),
        QueryType::Srv
    );
    let plan = plan_connection(&b"example.com".to_vec(), None, &RecordType::AUTO);
    assert_eq!(
        plan,
        ConnectPlan::Query {
            name: b"example.com.".to_vec(),
            qtype: QueryType::Srv,
        }
    );
}

#[test]
fn auto_policy_with_port_queries_a() {
    assert_eq!(
        decide_query_type(&RecordType::AUTO, Some(8123)),
        QueryType::A
    );
    let plan = plan_connection(&b"example.com".to_vec(), Some(8123), &RecordType::AUTO);
    assert_eq!(
        plan,
        ConnectPlan::Query {
            name: b"example.com.".to_vec(),
            qtype: QueryType::A,
        }
    );
}

#[test]
fn fixed_policies_ignore_the_port() {
    assert_eq!(decide_query_type(&RecordType::A, None), QueryType::A);
    assert_eq!(decide_query_type(&RecordType::A, Some(80)), QueryType::A);
    assert_eq!(decide_query_type(&RecordType::SRV, None), QueryType::Srv);
    assert_eq!(decide_query_type(&RecordType::SRV, Some(80)), QueryType::Srv);
}

#[test]
fn query_names_are_fully_qualified() {
    assert_eq!(to_fqdn(&b"example.com".to_vec()), b"example.com.".to_vec());
    assert_eq!(to_fqdn(&b"example.com.".to_vec()), b"example.com.".to_vec());
    assert_eq!(to_fqdn(&b"".to_vec()), b".".to_vec());
}

#[test]
fn srv_answer_with_matching_additional_resolves() {
    let set = DnsAnswerSet {
        answers: vec![srv_record(b"_svc._tcp.example.com.", b"svc.example.com.", 8443)],
        additionals: vec![a_record(b"svc.example.com.", ip(10, 0, 0, 5))],
    };
    let r = resolve_with_choice(&set, QueryType::Srv, &b"_svc._tcp.example.com.".to_vec(), None, 0);
    assert_eq!(r, Ok((ip(10, 0, 0, 5), Some(8443))));

    let ep = complete_resolution_with_choice(
        &set,
        QueryType::Srv,
        &b"_svc._tcp.example.com.".to_vec(),
        None,
        &b"http".to_vec(),
        &None,
        0,
    )
    .unwrap();
    assert_eq!(ep.scheme, b"http".to_vec());
    assert_eq!(ep.host, b"10.0.0.5".to_vec());
    assert_eq!(ep.port, Some(8443));
}

#[test]
fn srv_target_without_additional_fails() {
    let set = DnsAnswerSet {
        answers: vec![srv_record(b"_svc._tcp.example.com.", b"svc.example.com.", 8443)],
        additionals: vec![a_record(b"other.example.com.", ip(10, 0, 0, 6))],
    };
    let r = resolve_with_choice(&set, QueryType::Srv, &b"_svc._tcp.example.com.".to_vec(), None, 0);
    assert_eq!(r, Err(ResolveError::MissingCorrelatedRecord));
}

#[test]
fn empty_answer_section_fails() {
    let set = DnsAnswerSet {
        answers: vec![],
        additionals: vec![a_record(b"svc.example.com.", ip(10, 0, 0, 5))],
    };
    for qtype in [QueryType::A, QueryType::Srv] {
        let r = resolve_with_choice(&set, qtype, &b"example.com.".to_vec(), None, 0);
        assert_eq!(r, Err(ResolveError::EmptyAnswer));
        let r = resolve_answers(&set, qtype, &b"example.com.".to_vec(), None);
        assert_eq!(r, Err(ResolveError::EmptyAnswer));
    }
}

#[test]
fn a_query_resolves_against_the_answer_section() {
    let set = DnsAnswerSet {
        answers: vec![
            a_record(b"other.example.com.", ip(10, 0, 0, 9)),
            a_record(b"example.com.", ip(192, 168, 1, 20)),
        ],
        additionals: vec![],
    };
    let r = resolve_with_choice(&set, QueryType::A, &b"example.com.".to_vec(), Some(8080), 0);
    assert_eq!(r, Ok((ip(192, 168, 1, 20), Some(8080))));

    let r = resolve_with_choice(&set, QueryType::A, &b"example.com.".to_vec(), None, 0);
    assert_eq!(r, Ok((ip(192, 168, 1, 20), None)));

    let r = resolve_with_choice(&set, QueryType::A, &b"absent.example.com.".to_vec(), None, 0);
    assert_eq!(r, Err(ResolveError::MissingCorrelatedRecord));
}

#[test]
fn non_conforming_records_are_rejected() {
    // An SRV query whose chosen answer carries A data.
    let set = DnsAnswerSet {
        answers: vec![a_record(b"example.com.", ip(10, 0, 0, 5))],
        additionals: vec![],
    };
    let r = resolve_with_choice(&set, QueryType::Srv, &b"example.com.".to_vec(), None, 0);
    assert_eq!(r, Err(ResolveError::UnexpectedRecordType));

    // An A query whose matching answer carries SRV data.
    let set = DnsAnswerSet {
        answers: vec![srv_record(b"example.com.", b"svc.example.com.", 8443)],
        additionals: vec![],
    };
    let r = resolve_with_choice(&set, QueryType::A, &b"example.com.".to_vec(), None, 0);
    assert_eq!(r, Err(ResolveError::UnexpectedRecordType));

    // An SRV target whose additional record carries SRV data.
    let set = DnsAnswerSet {
        answers: vec![srv_record(b"_svc._tcp.example.com.", b"svc.example.com.", 8443)],
        additionals: vec![srv_record(b"svc.example.com.", b"deeper.example.com.", 1)],
    };
    let r = resolve_with_choice(&set, QueryType::Srv, &b"_svc._tcp.example.com.".to_vec(), None, 0);
    assert_eq!(r, Err(ResolveError::UnexpectedRecordType));
}

#[test]
fn resolution_is_idempotent_for_a_fixed_choice() {
    let set = DnsAnswerSet {
        answers: vec![
            srv_record(b"_svc._tcp.example.com.", b"one.example.com.", 81),
            srv_record(b"_svc._tcp.example.com.", b"two.example.com.", 82),
        ],
        additionals: vec![
            a_record(b"one.example.com.", ip(10, 0, 0, 1)),
            a_record(b"two.example.com.", ip(10, 0, 0, 2)),
        ],
    };
    for choice in 0..2 {
        let r1 = resolve_with_choice(&set, QueryType::Srv, &b"_svc._tcp.example.com.".to_vec(), None, choice);
        let r2 = resolve_with_choice(&set, QueryType::Srv, &b"_svc._tcp.example.com.".to_vec(), None, choice);
        assert_eq!(r1, r2);
    }
}

#[test]
fn single_answer_is_always_selected() {
    let set = DnsAnswerSet {
        answers: vec![srv_record(b"_svc._tcp.example.com.", b"svc.example.com.", 8443)],
        additionals: vec![a_record(b"svc.example.com.", ip(10, 0, 0, 5))],
    };
    for _ in 0..100 {
        let r = resolve_answers(&set, QueryType::Srv, &b"_svc._tcp.example.com.".to_vec(), None);
        assert_eq!(r, Ok((ip(10, 0, 0, 5), Some(8443))));
    }
}

#[test]
fn srv_selection_is_roughly_uniform() {
    let set = DnsAnswerSet {
        answers: vec![
            srv_record(b"_svc._tcp.example.com.", b"one.example.com.", 81),
            srv_record(b"_svc._tcp.example.com.", b"two.example.com.", 82),
            srv_record(b"_svc._tcp.example.com.", b"three.example.com.", 83),
        ],
        additionals: vec![
            a_record(b"one.example.com.", ip(10, 0, 0, 1)),
            a_record(b"two.example.com.", ip(10, 0, 0, 2)),
            a_record(b"three.example.com.", ip(10, 0, 0, 3)),
        ],
    };
    let trials = 3000;
    let mut counts = [0u32; 3];
    for _ in 0..trials {
        let r = resolve_answers(&set, QueryType::Srv, &b"_svc._tcp.example.com.".to_vec(), None)
            .unwrap();
        let (addr, port) = r;
        match port {
            Some(81) => counts[0] += 1,
            Some(82) => counts[1] += 1,
            Some(83) => counts[2] += 1,
            other => panic!("unexpected port {:?}", other),
        }
        assert_eq!(addr.d as u16, port.unwrap() - 80);
    }
    for (i, &c) in counts.iter().enumerate() {
        assert!(
            c >= 600 && c <= 1400,
            "answer {} selected {} times out of {}",
            i,
            c,
            trials
        );
    }
}
