use lightspeed::config::{
    code_from_sql, flag_from_sql, flag_to_sql, id_from_sql, id_to_sql, import_plan, NetworkConfig,
};

#[test]
fn network_defaults() {
    let n = NetworkConfig::default();
    assert!(n.use_multicast);
    assert_eq!(n.unicast_ip, "192.168.1.50");
    assert_eq!(n.universe, 1);
}

#[test]
fn replacing_import_writes_everything() {
    let existing = vec![1u64, 2];
    let incoming = vec![2u64, 3, 3];
    assert_eq!(import_plan(&existing, &incoming, false), vec![true, true, true]);
}

#[test]
fn merging_import_skips_known_ids() {
    let existing = vec![1u64, 2];
    let incoming = vec![2u64, 3, 3, 4, 1];
    assert_eq!(import_plan(&existing, &incoming, true), vec![false, true, false, true, false]);
    assert!(import_plan(&existing, &Vec::new(), true).is_empty());
}

#[test]
fn stored_values_read_back() {
    assert_eq!(flag_to_sql(true), 1);
    assert_eq!(flag_to_sql(false), 0);
    assert!(flag_from_sql(1) && flag_from_sql(-3));
    assert!(!flag_from_sql(0));
    assert_eq!(id_from_sql(id_to_sql(u64::MAX)), u64::MAX);
    assert_eq!(id_to_sql(u64::MAX), -1);
    assert_eq!(code_from_sql(300), 44);
    assert_eq!(code_from_sql(5), 5);
}
