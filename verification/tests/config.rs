use tfs_core::config::{
    checked_port, death_lose_percent, depot_free_limit, depot_premium_limit,
    exp_stages_enabled, experience_stage_for_level, DbConfig, ExperienceStageRange,
    MonsterWorldConfig, MysqlPoolConfig, NetConfig,
};

#[test]
fn net_config_defaults_when_keys_missing() {
    let net = NetConfig::from_values(None, None, None, None, None).expect("defaults should be applied");
    assert_eq!(net.ip, "127.0.0.1");
    assert!(!net.bind_only_global_address);
    assert_eq!(net.login_port, 7171);
    assert_eq!(net.game_port, 7172);
    assert_eq!(net.status_port, 7171);
}

#[test]
fn net_config_reads_all_keys() {
    let net = NetConfig::from_values(
        Some("10.20.30.40".to_string()),
        Some(true),
        Some(9001),
        Some(9002),
        Some(9003),
    )
    .expect("net config should parse");
    assert_eq!(net.ip, "10.20.30.40");
    assert!(net.bind_only_global_address);
    assert_eq!(net.login_port, 9001);
    assert_eq!(net.game_port, 9002);
    assert_eq!(net.status_port, 9003);
}

#[test]
fn net_config_rejects_out_of_range_port_values() {
    let err = NetConfig::from_values(None, None, Some(0), None, None).expect_err("port 0 must fail");
    assert_eq!(err, "key `loginProtocolPort` port out of range: 0");
    let err = NetConfig::from_values(None, None, None, Some(70000), None)
        .expect_err("port > 65535 must fail");
    assert_eq!(err, "key `gameProtocolPort` port out of range: 70000");
}

#[test]
fn db_config_defaults_when_keys_missing() {
    let db = DbConfig::from_values(None, None, None, None, None, None).expect("defaults should be applied");
    assert_eq!(db.host, "127.0.0.1");
    assert_eq!(db.user, "forgottenserver");
    assert_eq!(db.pass, "");
    assert_eq!(db.database, "forgottenserver");
    assert_eq!(db.port, 3306);
    assert_eq!(db.sock, "");
}

#[test]
fn db_config_reads_all_keys() {
    let db = DbConfig::from_values(
        Some("db.internal".to_string()),
        Some("otuser".to_string()),
        Some("secret".to_string()),
        Some("otdb".to_string()),
        Some(43306),
        Some("/tmp/mysql.sock".to_string()),
    )
    .expect("db config should parse");
    assert_eq!(db.host, "db.internal");
    assert_eq!(db.user, "otuser");
    assert_eq!(db.pass, "secret");
    assert_eq!(db.database, "otdb");
    assert_eq!(db.port, 43306);
    assert_eq!(db.sock, "/tmp/mysql.sock");
}

#[test]
fn db_config_rejects_out_of_range_port_values() {
    let err = DbConfig::from_values(None, None, None, None, Some(0), None).expect_err("port 0 must fail");
    assert_eq!(err, "key `mysqlPort` port out of range: 0");
    let err = DbConfig::from_values(None, None, None, None, Some(70000), None)
        .expect_err("port > 65535 must fail");
    assert_eq!(err, "key `mysqlPort` port out of range: 70000");
}

#[test]
fn mysql_pool_config_defaults_when_keys_missing() {
    let p = MysqlPoolConfig::from_values(None, None, None, None).expect("pool defaults");
    assert_eq!(p.min_connections, 1);
    assert_eq!(p.max_connections, 5);
    assert_eq!(p.idle_timeout_secs, 300);
    assert_eq!(p.acquire_timeout_secs, 10);
}

#[test]
fn mysql_pool_config_reads_keys() {
    let p = MysqlPoolConfig::from_values(Some(3), Some(15), Some(120), Some(5)).expect("pool");
    assert_eq!(p.min_connections, 3);
    assert_eq!(p.max_connections, 15);
    assert_eq!(p.idle_timeout_secs, 120);
    assert_eq!(p.acquire_timeout_secs, 5);
}

#[test]
fn mysql_pool_config_rejects_min_greater_than_max() {
    let err = MysqlPoolConfig::from_values(Some(10), Some(2), None, None).expect_err("min > max");
    assert_eq!(err, "mysqlConnectionPoolSize must be <= mysqlConnectionMaxPoolSize");
}

#[test]
fn mysql_pool_config_rejects_each_bad_value() {
    assert_eq!(
        MysqlPoolConfig::from_values(Some(-1), None, None, None).unwrap_err(),
        "mysqlConnectionPoolSize must be >= 0"
    );
    assert_eq!(
        MysqlPoolConfig::from_values(None, Some(0), None, None).unwrap_err(),
        "mysqlConnectionMaxPoolSize must be >= 1"
    );
    assert_eq!(
        MysqlPoolConfig::from_values(None, Some(10_001), None, None).unwrap_err(),
        "mysqlConnectionMaxPoolSize too large (max 10000)"
    );
    assert_eq!(
        MysqlPoolConfig::from_values(None, None, Some(-5), None).unwrap_err(),
        "mysqlConnectionTimeout must be >= 0"
    );
    assert_eq!(
        MysqlPoolConfig::from_values(None, None, None, Some(-5)).unwrap_err(),
        "mysqlConnectionAcquireTimeout must be >= 0"
    );
}

#[test]
fn pool_options_map_zero_timeouts() {
    let p = MysqlPoolConfig::from_values(None, None, Some(0), Some(0)).unwrap();
    let o = p.to_db_pool_options();
    assert_eq!(o.idle_timeout_secs, None);
    assert_eq!(o.acquire_timeout_secs, 30);
    let p = MysqlPoolConfig::from_values(None, None, Some(120), Some(5)).unwrap();
    let o = p.to_db_pool_options();
    assert_eq!(o.idle_timeout_secs, Some(120));
    assert_eq!(o.acquire_timeout_secs, 5);
    assert_eq!((o.min_connections, o.max_connections), (1, 5));
}

#[test]
fn checked_port_bounds() {
    assert_eq!(checked_port(1, "p"), Ok(1));
    assert_eq!(checked_port(65535, "p"), Ok(65535));
    assert_eq!(checked_port(-3, "p"), Err("key `p` port out of range: -3".to_string()));
    assert_eq!(checked_port(65536, "p"), Err("key `p` port out of range: 65536".to_string()));
}

#[test]
fn monster_world_config_defaults_and_values() {
    let d = MonsterWorldConfig::defaults();
    assert_eq!(d, MonsterWorldConfig::from_values(None, None, None, None));
    assert_eq!(d.despawn_radius, 50);
    assert_eq!(d.despawn_z_range, 2);
    assert_eq!(d.walk_to_spawn_radius, 15);
    assert!(d.remove_on_despawn);
    let c = MonsterWorldConfig::from_values(Some(30), Some(1), Some(0), Some(false));
    assert_eq!((c.despawn_radius, c.despawn_z_range, c.walk_to_spawn_radius), (30, 1, 0));
    assert!(!c.remove_on_despawn);
}

#[test]
fn depot_limits_and_death_loss() {
    assert_eq!(depot_free_limit(None), 2000);
    assert_eq!(depot_premium_limit(None), 10000);
    assert_eq!(depot_free_limit(Some(-4)), 0);
    assert_eq!(depot_premium_limit(Some(77)), 77);
    assert_eq!(death_lose_percent(None), -1);
    assert_eq!(death_lose_percent(Some(10)), 10);
    assert!(!exp_stages_enabled(None));
    assert!(exp_stages_enabled(Some(true)));
}

fn stage(min_level: i32, max_level: Option<i32>) -> ExperienceStageRange {
    ExperienceStageRange { min_level, max_level }
}

fn rate_for_level(rate_exp: f64, stages_on: Option<bool>, stages: &[(i32, Option<i32>, f64)], level: i32) -> f64 {
    if !exp_stages_enabled(stages_on) || stages.is_empty() {
        return rate_exp;
    }
    let ranges: Vec<ExperienceStageRange> = stages.iter().map(|s| stage(s.0, s.1)).collect();
    match experience_stage_for_level(&ranges, level) {
        Some(i) => stages[i].2.max(0.0),
        None => rate_exp,
    }
}

#[test]
fn experience_rate_for_level_uses_flat_rate_when_stages_disabled() {
    let stages = [(1, Some(10), 100.0)];
    assert_eq!(rate_for_level(5.5, Some(false), &stages, 1), 5.5);
    assert_eq!(rate_for_level(5.5, Some(false), &stages, 500), 5.5);
}

#[test]
fn experience_rate_for_level_uses_stage_table_when_enabled() {
    let stages = [(1, Some(10), 100.0), (11, Some(20), 20.0), (21, None, 12.0)];
    assert_eq!(rate_for_level(5.5, Some(true), &stages, 1), 100.0);
    assert_eq!(rate_for_level(5.5, Some(true), &stages, 15), 20.0);
    assert_eq!(rate_for_level(5.5, Some(true), &stages, 200), 12.0);
}

#[test]
fn experience_stage_lookup_edges() {
    let ranges = vec![stage(5, Some(10)), stage(8, None)];
    assert_eq!(experience_stage_for_level(&ranges, 0), None);
    assert_eq!(experience_stage_for_level(&ranges, 5), Some(0));
    assert_eq!(experience_stage_for_level(&ranges, 10), Some(0));
    assert_eq!(experience_stage_for_level(&ranges, 11), Some(1));
    let low = vec![stage(1, Some(1))];
    assert_eq!(experience_stage_for_level(&low, -7), Some(0));
}
