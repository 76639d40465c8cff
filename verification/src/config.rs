//! Server settings, read from the process environment's variables.

use vstd::prelude::*;
use crate::table::StrMap;
use crate::text::{spec_parse_u16, spec_parse_u64, spec_parse_usize, spec_to_lowercase, decimal};

verus! {

/// The server settings.
pub struct Config {
    pub database_url: String,
    pub database_name: String,
    pub account_collection: String,
    pub port: u16,
    pub ip_connection_limit: usize,
    pub ip_connection_rate_limit: usize,
    pub client_message_rate_limit: usize,
    pub max_ip_account_per_day: usize,
    pub max_ip_account_per_hour: usize,
    pub max_heap_usage: u64,
    pub cors_origins: Vec<String>,
    pub production_origins: Vec<String>,
    pub email_password: String,
    pub email_admin: String,
    pub email_host: String,
    pub email_port: u16,
    pub email_user: String,
    pub email_from: String,
}

/// A variable's value, or a default.
pub open spec fn var_or(vars: Map<Seq<char>, String>, k: Seq<char>, d: Seq<char>) -> Seq<char> {
    if vars.contains_key(k) {
        vars[k]@
    } else {
        d
    }
}

/// A positive count given by a variable, or a default.
pub open spec fn count_var(vars: Map<Seq<char>, String>, k: Seq<char>, d: usize) -> usize {
    if vars.contains_key(k) && (spec_parse_usize(vars[k]@) matches Some(v) && v > 0) {
        spec_parse_usize(vars[k]@).unwrap()
    } else {
        d
    }
}

/// A port given by a variable, or a default.
pub open spec fn port_var(vars: Map<Seq<char>, String>, k: Seq<char>, d: u16) -> u16 {
    if vars.contains_key(k) && spec_parse_u16(vars[k]@) is Some {
        spec_parse_u16(vars[k]@).unwrap()
    } else {
        d
    }
}

/// The values of the variables `prefix0` to `prefix{n-1}` that are set and
/// not empty, in order, each mapped by `f`.
pub open spec fn numbered_vars(vars: Map<Seq<char>, String>, prefix: Seq<char>, n: nat, f: spec_fn(Seq<char>) -> Seq<char>) -> Seq<Seq<char>>
    decreases n,
{
    if n == 0 {
        Seq::empty()
    } else {
        let prev = numbered_vars(vars, prefix, (n - 1) as nat, f);
        let k = prefix + decimal((n - 1) as int);
        if vars.contains_key(k) && vars[k]@.len() > 0 {
            prev.push(f(vars[k]@))
        } else {
            prev
        }
    }
}

fn var_or_exec(vars: &StrMap<String>, k: &str, d: &str) -> (r: String)
    ensures
        r@ == var_or(vars.map(), k@, d@),
{
    match vars.get(k) {
        Some(v) => v.clone(),
        None => crate::text::to_owned_string(d),
    }
}

fn count_var_exec(vars: &StrMap<String>, k: &str, d: usize) -> (r: usize)
    ensures
        r == count_var(vars.map(), k@, d),
{
    match vars.get(k) {
        Some(v) => match crate::text::parse_usize(v.as_str()) {
            Some(n) => if n > 0 {
                n
            } else {
                d
            },
            None => d,
        },
        None => d,
    }
}

fn port_var_exec(vars: &StrMap<String>, k: &str, d: u16) -> (r: u16)
    ensures
        r == port_var(vars.map(), k@, d),
{
    match vars.get(k) {
        Some(v) => match crate::text::parse_u16(v.as_str()) {
            Some(n) => n,
            None => d,
        },
        None => d,
    }
}

fn numbered(vars: &StrMap<String>, prefix: &str, n: u64, lower: bool) -> (r: Vec<String>)
    ensures
        crate::lists::texts(r@) == numbered_vars(
            vars.map(),
            prefix@,
            n as nat,
            if lower {
                |s: Seq<char>| spec_to_lowercase(s)
            } else {
                |s: Seq<char>| s
            },
        ),
{
    let ghost f = if lower {
        |s: Seq<char>| spec_to_lowercase(s)
    } else {
        |s: Seq<char>| s
    };
    let mut out: Vec<String> = Vec::new();
    let mut i: u64 = 0;
    while i < n
        invariant
            i <= n,
            f == if lower {
                |s: Seq<char>| spec_to_lowercase(s)
            } else {
                |s: Seq<char>| s
            },
            crate::lists::texts(out@) == numbered_vars(vars.map(), prefix@, i as nat, f),
        decreases n - i,
    {
        let mut k = crate::text::to_owned_string(prefix);
        let d = crate::text::u64_to_string(i);
        crate::text::push_str(&mut k, d.as_str());
        proof {
            assert(decimal(i as int) == d@);
        }
        match vars.get(k.as_str()) {
            Some(v) => if crate::text::char_count(v.as_str()) > 0 {
                let ghost before = crate::lists::texts(out@);
                let x = if lower {
                    crate::text::to_lowercase(v.as_str())
                } else {
                    v.clone()
                };
                out.push(x);
                proof {
                    assert(crate::lists::texts(out@) =~= before.push(f(v@)));
                }
            },
            None => {},
        }
        i += 1;
    }
    out
}

impl Config {
    /// The settings given by the variables `vars`, defaults for those unset
    /// (or unreadable, for numbers; a count must also be positive).
    pub fn from_vars(vars: &StrMap<String>) -> (r: Config)
        ensures
            r.database_url@ == var_or(vars.map(), "DATABASE_URL"@, "mongodb://localhost:27017/BondageClubDatabase"@),
            r.database_name@ == var_or(vars.map(), "DATABASE_NAME"@, "BondageClubDatabase"@),
            r.account_collection@ == var_or(vars.map(), "ACCOUNT_COLLECTION"@, "Accounts"@),
            r.port == port_var(vars.map(), "PORT"@, 4288),
            r.ip_connection_limit == count_var(vars.map(), "IP_CONNECTION_LIMIT"@, 64),
            r.ip_connection_rate_limit == count_var(vars.map(), "IP_CONNECTION_RATE_LIMIT"@, 2),
            r.client_message_rate_limit == count_var(vars.map(), "CLIENT_MESSAGE_RATE_LIMIT"@, 20),
            r.max_ip_account_per_day == count_var(vars.map(), "MAX_IP_ACCOUNT_PER_DAY"@, 12),
            r.max_ip_account_per_hour == count_var(vars.map(), "MAX_IP_ACCOUNT_PER_HOUR"@, 4),
            r.max_heap_usage == if vars.map().contains_key("MAX_HEAP_USAGE"@) && spec_parse_u64(
                vars.map()["MAX_HEAP_USAGE"@]@,
            ) is Some {
                spec_parse_u64(vars.map()["MAX_HEAP_USAGE"@]@).unwrap()
            } else {
                16_000_000_000u64
            },
            crate::lists::texts(r.cors_origins@) == numbered_vars(vars.map(), "CORS_ORIGIN"@, 6, |s: Seq<char>| s),
            crate::lists::texts(r.production_origins@) == numbered_vars(
                vars.map(),
                "PRODUCTION"@,
                13,
                |s: Seq<char>| spec_to_lowercase(s),
            ),
            r.email_password@ == var_or(vars.map(), "EMAIL_PASSWORD"@, ""@),
            r.email_admin@ == var_or(vars.map(), "EMAIL_ADMIN"@, ""@),
            r.email_host@ == var_or(vars.map(), "EMAIL_HOST"@, "mail.bondageprojects.com"@),
            r.email_port == port_var(vars.map(), "EMAIL_PORT"@, 465),
            r.email_user@ == var_or(vars.map(), "EMAIL_USER"@, "donotreply@bondageprojects.com"@),
            r.email_from@ == var_or(vars.map(), "EMAIL_FROM"@, "donotreply@bondageprojects.com"@),
    {
        let max_heap_usage = match vars.get("MAX_HEAP_USAGE") {
            Some(v) => match crate::text::parse_u64(v.as_str()) {
                Some(n) => n,
                None => 16_000_000_000u64,
            },
            None => 16_000_000_000u64,
        };
        Config {
            database_url: var_or_exec(vars, "DATABASE_URL", "mongodb://localhost:27017/BondageClubDatabase"),
            database_name: var_or_exec(vars, "DATABASE_NAME", "BondageClubDatabase"),
            account_collection: var_or_exec(vars, "ACCOUNT_COLLECTION", "Accounts"),
            port: port_var_exec(vars, "PORT", 4288),
            ip_connection_limit: count_var_exec(vars, "IP_CONNECTION_LIMIT", 64),
            ip_connection_rate_limit: count_var_exec(vars, "IP_CONNECTION_RATE_LIMIT", 2),
            client_message_rate_limit: count_var_exec(vars, "CLIENT_MESSAGE_RATE_LIMIT", 20),
            max_ip_account_per_day: count_var_exec(vars, "MAX_IP_ACCOUNT_PER_DAY", 12),
            max_ip_account_per_hour: count_var_exec(vars, "MAX_IP_ACCOUNT_PER_HOUR", 4),
            max_heap_usage,
            cors_origins: numbered(vars, "CORS_ORIGIN", 6, false),
            production_origins: numbered(vars, "PRODUCTION", 13, true),
            email_password: var_or_exec(vars, "EMAIL_PASSWORD", ""),
            email_admin: var_or_exec(vars, "EMAIL_ADMIN", ""),
            email_host: var_or_exec(vars, "EMAIL_HOST", "mail.bondageprojects.com"),
            email_port: port_var_exec(vars, "EMAIL_PORT", 465),
            email_user: var_or_exec(vars, "EMAIL_USER", "donotreply@bondageprojects.com"),
            email_from: var_or_exec(vars, "EMAIL_FROM", "donotreply@bondageprojects.com"),
        }
    }
}

/// The client address a connection was accepted from.
pub struct ClientIp(pub String);

} // verus!
