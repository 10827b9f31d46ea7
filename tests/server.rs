use rpaxos::{Acceptor, PaxosError, PaxosInstanceId, PaxosService, Proposer, RoundNum, Value};

fn request(key: &str, number: i64, proposer_id: i64, value: Option<i64>) -> Proposer {
    Proposer {
        id: PaxosInstanceId {
            key: key.to_string(),
            version: 0,
        },
        round: RoundNum {
            number,
            proposer_id,
        },
        value: value.map(|v| Value { value: v }),
    }
}

#[test]
fn test_prepare() {
    let mut service = PaxosService::new();
    let r0 = request("test", 1, 0, Some(11));
    let acc = service.prepare(&r0);
    assert_eq!(
        Acceptor {
            round: RoundNum::default(),
            last_round: RoundNum {
                number: 0,
                proposer_id: 0,
            },
            value: None,
        },
        acc
    );

    let r1 = request("test", 2, 0, Some(03));
    let acc = service.prepare(&r1);
    assert_eq!(
        acc,
        Acceptor {
            round: RoundNum {
                number: 0,
                proposer_id: 0,
            },
            last_round: RoundNum {
                number: 1,
                proposer_id: 0,
            },
            value: None,
        }
    );
}

#[test]
fn test_accept() {
    let mut service = PaxosService::new();
    let proposer = request("test1", 1, 0, Some(11));
    let acc = service.prepare(&proposer);
    assert_eq!(
        Acceptor {
            round: RoundNum::default(),
            last_round: RoundNum {
                number: 0,
                proposer_id: 0,
            },
            value: None,
        },
        acc
    );

    let r = service.accept(&proposer);
    assert!(r.is_ok());
    let acc = r.unwrap();
    assert_eq!(
        Acceptor {
            round: RoundNum {
                number: 0,
                proposer_id: 0,
            },
            last_round: RoundNum {
                number: 1,
                proposer_id: 0,
            },
            value: None,
        },
        acc
    );
}

#[test]
fn prepare_then_accept_then_lower_prepare() {
    let mut service = PaxosService::new();
    let r11 = RoundNum {
        number: 1,
        proposer_id: 1,
    };
    let acc = service.prepare(&request("sw", 1, 1, None));
    assert_eq!(acc, Acceptor::empty());
    assert_eq!(service.record("sw").unwrap().last_round, r11);

    let acc = service.accept(&request("sw", 1, 1, Some(11))).unwrap();
    assert_eq!(
        acc,
        Acceptor {
            round: RoundNum::default(),
            last_round: r11,
            value: None,
        }
    );
    let stored = Acceptor {
        round: r11,
        last_round: r11,
        value: Some(Value { value: 11 }),
    };
    assert_eq!(service.record("sw"), Some(stored));

    let acc = service.prepare(&request("sw", 0, 1, None));
    assert_eq!(acc, stored);
    assert_eq!(service.record("sw"), Some(stored));
}

#[test]
fn accept_of_unknown_instance_is_refused() {
    let mut service = PaxosService::new();
    let r = service.accept(&request("none", 1, 1, Some(5)));
    assert_eq!(r, Err(PaxosError::InstanceNotFound));
    assert_eq!(service.record("none"), None);
}

#[test]
fn stale_accept_leaves_record_unchanged() {
    let mut service = PaxosService::new();
    service.prepare(&request("k", 5, 1, None));
    let before = service.record("k");
    let reply = service.accept(&request("k", 4, 2, Some(9))).unwrap();
    assert_eq!(Some(reply), before);
    assert_eq!(service.record("k"), before);
}

#[test]
fn promise_never_drops_over_accepts_and_higher_prepares() {
    let mut service = PaxosService::new();
    let mut seen = vec![];
    seen.push(service.prepare(&request("m", 2, 1, None)).last_round.number);
    seen.push(service.accept(&request("m", 1, 1, Some(1))).unwrap().last_round.number);
    seen.push(service.accept(&request("m", 3, 2, Some(2))).unwrap().last_round.number);
    seen.push(service.prepare(&request("m", 2, 1, None)).last_round.number);
    seen.push(service.prepare(&request("m", 7, 3, None)).last_round.number);
    seen.push(service.prepare(&request("m", 0, 3, None)).last_round.number);
    assert_eq!(seen, vec![0, 2, 2, 3, 3, 7]);
}

#[test]
fn prepare_between_accepted_and_promised_lowers_the_promise() {
    let mut service = PaxosService::new();
    service.prepare(&request("g", 6, 1, None));
    service.prepare(&request("g", 3, 1, None));
    assert_eq!(service.record("g").unwrap().last_round.number, 3);
}

#[test]
fn keys_are_independent() {
    let mut service = PaxosService::new();
    service.prepare(&request("a", 4, 1, Some(1)));
    let reply = service.prepare(&request("b", 1, 1, Some(2)));
    assert_eq!(reply, Acceptor::empty());
    assert_eq!(service.record("a").unwrap().last_round.number, 4);
    assert_eq!(service.record("b").unwrap().last_round.number, 1);
}
