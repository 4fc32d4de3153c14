use collection_bootstrap::endpoint::DbHost;

#[test]
fn local_flag_resolves_to_local_uri() {
    let host = DbHost::from_flag("local");
    assert!(matches!(host, Some(DbHost::Local)));
    assert_eq!(host.unwrap().db_uri(), "http://localhost:6334");
}

#[test]
fn docker_flag_resolves_to_docker_uri() {
    let host = DbHost::from_flag("docker");
    assert!(matches!(host, Some(DbHost::Docker)));
    assert_eq!(host.unwrap().db_uri(), "http://qdrant:6334");
}

#[test]
fn unrecognized_flags_are_rejected() {
    assert!(DbHost::from_flag("remote").is_none());
    assert!(DbHost::from_flag("").is_none());
    assert!(DbHost::from_flag("Local").is_none());
    assert!(DbHost::from_flag("localhost").is_none());
    assert!(DbHost::from_flag("dockerr").is_none());
}

#[test]
fn possible_values_match_the_flags() {
    assert_eq!(DbHost::Local.to_possible_value(), Some("local"));
    assert_eq!(DbHost::Docker.to_possible_value(), Some("docker"));
}

#[test]
fn flag_round_trips_through_possible_value() {
    for host in [DbHost::Local, DbHost::Docker] {
        let flag = host.to_possible_value().unwrap();
        let parsed = DbHost::from_flag(flag).unwrap();
        assert_eq!(parsed, host);
    }
}
