//! Server settings as the configuration file gives them: network ports, database login,
//! connection pool limits, monster despawn rules. Each builder takes the values read
//! for its keys (`None` for a missing key, which takes its default) and checks them.

use vstd::prelude::*;
use crate::text::{i64_to_decimal, signed_decimal};

verus! {

/// Network settings.
#[derive(Debug, Clone, PartialEq, Eq)]
pub struct NetConfig {
    pub ip: String,
    pub bind_only_global_address: bool,
    pub login_port: u16,
    pub game_port: u16,
    pub status_port: u16,
}

/// Database login.
#[derive(Debug, Clone, PartialEq, Eq)]
pub struct DbConfig {
    pub host: String,
    pub user: String,
    pub pass: String,
    pub database: String,
    pub port: u16,
    pub sock: String,
}

/// Monster despawn and walk-back settings.
#[derive(Debug, Clone, Copy, PartialEq, Eq, Structural)]
pub struct MonsterWorldConfig {
    /// Distance from its spawn at which a monster despawns.
    pub despawn_radius: i32,
    /// Floors away from its spawn at which a monster despawns.
    pub despawn_z_range: i32,
    /// Distance at which a monster walks back to its spawn (0: never).
    pub walk_to_spawn_radius: i32,
    /// Remove a despawned monster (else teleport it to its spawn).
    pub remove_on_despawn: bool,
}

/// Database connection pool limits (timeouts in seconds; 0 idle = no limit, 0 acquire
/// = the pool's default).
#[derive(Debug, Clone, Copy, PartialEq, Eq, Structural)]
pub struct MysqlPoolConfig {
    pub min_connections: u32,
    pub max_connections: u32,
    pub idle_timeout_secs: u64,
    pub acquire_timeout_secs: u64,
}

/// The message for port value `v` of `key` out of range.
pub open spec fn port_error(key: Seq<char>, v: i64) -> Seq<char> {
    "key `"@ + key + "` port out of range: "@ + signed_decimal(v as int)
}

/// A port value: `1..=65535`, else an error naming the key and value.
pub fn checked_port(value: i64, key: &str) -> (r: Result<u16, String>)
    ensures
        match r {
            Ok(p) => 1 <= value <= 0xffff && p == value,
            Err(e) => !(1 <= value <= 0xffff) && e@ == port_error(key@, value),
        },
{
    if value < 1 || value > 0xffff {
        let mut msg = String::from_str("key `");
        msg.append(key);
        msg.append("` port out of range: ");
        let v = i64_to_decimal(value);
        msg.append(v.as_str());
        return Err(msg);
    }
    Ok(value as u16)
}

/// `v`, or `d` when missing.
pub open spec fn or_default<T>(v: Option<T>, d: T) -> T {
    match v { Some(x) => x, None => d }
}

fn text_or(v: Option<String>, d: &str) -> (r: String)
    ensures
        r@ == match v { Some(s) => s@, None => d@ },
{
    match v {
        Some(s) => s,
        None => String::from_str(d),
    }
}

impl NetConfig {
    /// Network settings from `ip` (default "127.0.0.1"), `bindOnlyGlobalAddress`
    /// (false), `loginProtocolPort` (7171), `gameProtocolPort` (7172) and
    /// `statusProtocolPort` (7171); the first port out of range is the error.
    pub fn from_values(
        ip: Option<String>,
        bind_only_global_address: Option<bool>,
        login_port: Option<i64>,
        game_port: Option<i64>,
        status_port: Option<i64>,
    ) -> (r: Result<NetConfig, String>)
        ensures
            ({
                let l = or_default(login_port, 7171);
                let g = or_default(game_port, 7172);
                let s = or_default(status_port, 7171);
                if !(1 <= l <= 0xffff) {
                    r is Err && r->Err_0@ == port_error("loginProtocolPort"@, l)
                } else if !(1 <= g <= 0xffff) {
                    r is Err && r->Err_0@ == port_error("gameProtocolPort"@, g)
                } else if !(1 <= s <= 0xffff) {
                    r is Err && r->Err_0@ == port_error("statusProtocolPort"@, s)
                } else {
                    r matches Ok(c) && c.ip@ == (match ip { Some(t) => t@, None => "127.0.0.1"@ })
                        && c.bind_only_global_address == or_default(bind_only_global_address, false)
                        && c.login_port == l && c.game_port == g && c.status_port == s
                }
            }),
    {
        let ip = text_or(ip, "127.0.0.1");
        let bind = match bind_only_global_address { Some(b) => b, None => false };
        let login = checked_port(match login_port { Some(v) => v, None => 7171 }, "loginProtocolPort")?;
        let game = checked_port(match game_port { Some(v) => v, None => 7172 }, "gameProtocolPort")?;
        let status = checked_port(match status_port { Some(v) => v, None => 7171 }, "statusProtocolPort")?;
        Ok(NetConfig { ip, bind_only_global_address: bind, login_port: login, game_port: game, status_port: status })
    }
}

impl DbConfig {
    /// Database login from `mysqlHost` ("127.0.0.1"), `mysqlUser` ("forgottenserver"),
    /// `mysqlPass` (""), `mysqlDatabase` ("forgottenserver"), `mysqlPort` (3306, checked)
    /// and `mysqlSock` ("").
    pub fn from_values(
        host: Option<String>,
        user: Option<String>,
        pass: Option<String>,
        database: Option<String>,
        port: Option<i64>,
        sock: Option<String>,
    ) -> (r: Result<DbConfig, String>)
        ensures
            ({
                let p = or_default(port, 3306);
                if !(1 <= p <= 0xffff) {
                    r is Err && r->Err_0@ == port_error("mysqlPort"@, p)
                } else {
                    r matches Ok(c)
                        && c.host@ == (match host { Some(t) => t@, None => "127.0.0.1"@ })
                        && c.user@ == (match user { Some(t) => t@, None => "forgottenserver"@ })
                        && c.pass@ == (match pass { Some(t) => t@, None => ""@ })
                        && c.database@ == (match database { Some(t) => t@, None => "forgottenserver"@ })
                        && c.port == p
                        && c.sock@ == (match sock { Some(t) => t@, None => ""@ })
                }
            }),
    {
        let host = text_or(host, "127.0.0.1");
        let user = text_or(user, "forgottenserver");
        let pass = text_or(pass, "");
        let database = text_or(database, "forgottenserver");
        let port = checked_port(match port { Some(v) => v, None => 3306 }, "mysqlPort")?;
        let sock = text_or(sock, "");
        Ok(DbConfig { host, user, pass, database, port, sock })
    }
}

impl MonsterWorldConfig {
    /// Despawn radius 50, floor range 2, walk-back radius 15, removal on despawn.
    pub fn defaults() -> (c: MonsterWorldConfig)
        ensures
            c == (MonsterWorldConfig { despawn_radius: 50, despawn_z_range: 2, walk_to_spawn_radius: 15, remove_on_despawn: true }),
    {
        MonsterWorldConfig { despawn_radius: 50, despawn_z_range: 2, walk_to_spawn_radius: 15, remove_on_despawn: true }
    }

    /// Settings from `deSpawnRadius`, `deSpawnRange`, `walkToSpawnRadius` (each taken to
    /// `i32` by truncation) and `removeOnDespawn`, defaults as in `defaults`.
    pub fn from_values(radius: Option<i64>, z_range: Option<i64>, walk_back: Option<i64>, remove: Option<bool>) -> (c: MonsterWorldConfig)
        ensures
            c == (MonsterWorldConfig {
                despawn_radius: or_default(radius, 50) as i32,
                despawn_z_range: or_default(z_range, 2) as i32,
                walk_to_spawn_radius: or_default(walk_back, 15) as i32,
                remove_on_despawn: or_default(remove, true),
            }),
    {
        MonsterWorldConfig {
            despawn_radius: (match radius { Some(v) => v, None => 50 }) as i32,
            despawn_z_range: (match z_range { Some(v) => v, None => 2 }) as i32,
            walk_to_spawn_radius: (match walk_back { Some(v) => v, None => 15 }) as i32,
            remove_on_despawn: match remove { Some(v) => v, None => true },
        }
    }
}

/// What the pool limits come to: the first failed check, else the limits (counts taken to `u32` by
/// truncation).
pub open spec fn pool_config(min: i64, max: i64, idle: i64, acquire: i64) -> Result<MysqlPoolConfig, Seq<char>> {
    if min < 0 {
        Err("mysqlConnectionPoolSize must be >= 0"@)
    } else if max < 1 {
        Err("mysqlConnectionMaxPoolSize must be >= 1"@)
    } else if max > 10_000 {
        Err("mysqlConnectionMaxPoolSize too large (max 10000)"@)
    } else if idle < 0 {
        Err("mysqlConnectionTimeout must be >= 0"@)
    } else if acquire < 0 {
        Err("mysqlConnectionAcquireTimeout must be >= 0"@)
    } else if (min as u32) > (max as u32) {
        Err("mysqlConnectionPoolSize must be <= mysqlConnectionMaxPoolSize"@)
    } else {
        Ok(MysqlPoolConfig {
            min_connections: min as u32,
            max_connections: max as u32,
            idle_timeout_secs: idle as u64,
            acquire_timeout_secs: acquire as u64,
        })
    }
}

impl MysqlPoolConfig {
    /// Pool limits from `mysqlConnectionPoolSize` (default 1), `mysqlConnectionMaxPoolSize`
    /// (5), `mysqlConnectionTimeout` (300) and `mysqlConnectionAcquireTimeout` (10).
    pub fn from_values(min: Option<i64>, max: Option<i64>, idle: Option<i64>, acquire: Option<i64>) -> (r: Result<MysqlPoolConfig, String>)
        ensures
            match pool_config(or_default(min, 1), or_default(max, 5), or_default(idle, 300), or_default(acquire, 10)) {
                Ok(c) => r == Ok::<MysqlPoolConfig, String>(c),
                Err(e) => r is Err && r->Err_0@ == e,
            },
    {
        let min = match min { Some(v) => v, None => 1 };
        let max = match max { Some(v) => v, None => 5 };
        let idle = match idle { Some(v) => v, None => 300 };
        let acquire = match acquire { Some(v) => v, None => 10 };
        if min < 0 {
            return Err(String::from_str("mysqlConnectionPoolSize must be >= 0"));
        }
        if max < 1 {
            return Err(String::from_str("mysqlConnectionMaxPoolSize must be >= 1"));
        }
        if max > 10_000 {
            return Err(String::from_str("mysqlConnectionMaxPoolSize too large (max 10000)"));
        }
        if idle < 0 {
            return Err(String::from_str("mysqlConnectionTimeout must be >= 0"));
        }
        if acquire < 0 {
            return Err(String::from_str("mysqlConnectionAcquireTimeout must be >= 0"));
        }
        let min_u = min as u32;
        let max_u = max as u32;
        if min_u > max_u {
            return Err(String::from_str("mysqlConnectionPoolSize must be <= mysqlConnectionMaxPoolSize"));
        }
        Ok(MysqlPoolConfig {
            min_connections: min_u,
            max_connections: max_u,
            idle_timeout_secs: idle as u64,
            acquire_timeout_secs: acquire as u64,
        })
    }
}

/// Pool options as the database layer takes them: no idle limit for a 0 idle timeout,
/// 30 seconds for a 0 acquire timeout.
#[derive(Debug, Clone, Copy, PartialEq, Eq, Structural)]
pub struct DbPoolConnectOptions {
    pub min_connections: u32,
    pub max_connections: u32,
    pub idle_timeout_secs: Option<u64>,
    pub acquire_timeout_secs: u64,
}

impl MysqlPoolConfig {
    pub fn to_db_pool_options(&self) -> (r: DbPoolConnectOptions)
        ensures
            r.min_connections == self.min_connections,
            r.max_connections == self.max_connections,
            r.idle_timeout_secs == (if self.idle_timeout_secs == 0 { None } else { Some(self.idle_timeout_secs) }),
            r.acquire_timeout_secs == (if self.acquire_timeout_secs == 0 { 30 } else { self.acquire_timeout_secs }),
    {
        DbPoolConnectOptions {
            min_connections: self.min_connections,
            max_connections: self.max_connections,
            idle_timeout_secs: if self.idle_timeout_secs == 0 { None } else { Some(self.idle_timeout_secs) },
            acquire_timeout_secs: if self.acquire_timeout_secs == 0 { 30 } else { self.acquire_timeout_secs },
        }
    }
}

/// A depot limit: the value (default `default`) at least 0, taken to `u32` by truncation.
pub open spec fn depot_limit(value: Option<i64>, default: i64) -> u32 {
    let v = or_default(value, default);
    (if v < 0 { 0 } else { v }) as u32
}

/// Items a free account's depot holds (`depotFreeLimit`, default 2000).
pub fn depot_free_limit(value: Option<i64>) -> (r: u32)
    ensures
        r == depot_limit(value, 2000),
{
    let v = match value { Some(v) => v, None => 2000 };
    (if v < 0 { 0 } else { v }) as u32
}

/// Items a premium account's depot holds (`depotPremiumLimit`, default 10000).
pub fn depot_premium_limit(value: Option<i64>) -> (r: u32)
    ensures
        r == depot_limit(value, 10000),
{
    let v = match value { Some(v) => v, None => 10000 };
    (if v < 0 { 0 } else { v }) as u32
}

/// Percent of experience lost on death (`deathLosePercent`, default -1: the formula),
/// taken to `i32` by truncation.
pub fn death_lose_percent(value: Option<i64>) -> (r: i32)
    ensures
        r == or_default(value, -1i64) as i32,
{
    (match value { Some(v) => v, None => -1 }) as i32
}

/// Whether experience stages are on (`expStages`, default false).
pub fn exp_stages_enabled(value: Option<bool>) -> (r: bool)
    ensures
        r == or_default(value, false),
{
    match value { Some(b) => b, None => false }
}

/// The level range of an experience stage: from `min_level`, up to `max_level` when
/// given.
#[derive(Debug, Clone, Copy, PartialEq, Eq, Structural)]
pub struct ExperienceStageRange {
    pub min_level: i32,
    pub max_level: Option<i32>,
}

pub open spec fn stage_covers(st: ExperienceStageRange, level: i32) -> bool {
    let l = if level < 1 { 1 } else { level };
    l >= st.min_level && match st.max_level { Some(m) => l <= m, None => true }
}

/// The stage whose rate applies at `level` (taken to at least 1): the first stage that
/// covers it, if any.
pub fn experience_stage_for_level(stages: &Vec<ExperienceStageRange>, level: i32) -> (r: Option<usize>)
    ensures
        match r {
            Some(i) => i < stages@.len() && stage_covers(stages@[i as int], level)
                && forall|j: int| 0 <= j < i ==> !stage_covers(#[trigger] stages@[j], level),
            None => forall|j: int| 0 <= j < stages@.len() ==> !stage_covers(#[trigger] stages@[j], level),
        },
{
    let l = if level < 1 { 1 } else { level };
    let mut i: usize = 0;
    while i < stages.len()
        invariant
            i <= stages@.len(),
            l == (if level < 1 { 1 } else { level }),
            forall|j: int| 0 <= j < i ==> !stage_covers(#[trigger] stages@[j], level),
        decreases stages@.len() - i,
    {
        let st = stages[i];
        let within = match st.max_level { Some(m) => l <= m, None => true };
        if l >= st.min_level && within {
            return Some(i);
        }
        i = i + 1;
    }
    None
}

} // verus!
