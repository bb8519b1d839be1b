//! Server configuration, from settings that may be absent.

use vstd::prelude::*;
use crate::text::char_count;

verus! {

/// Server configuration (all-in-one mode).
pub struct Config {
    /// HTTP listen address (such as `127.0.0.1:8080`).
    pub bind: String,
    /// Path of the SQLite file.
    pub db_path: String,
    pub instance_name: String,
    pub instance_description: Option<String>,
    /// `open`, `invite` or `closed`.
    pub registration_policy: String,
    /// Instance password, in clear, read at bootstrap only; `None` means no gate.
    pub instance_password: Option<String>,
    pub version: String,
}

/// The value of an optional setting, or `default` when it is absent.
pub open spec fn setting_or(s: Option<String>, default: Seq<char>) -> Seq<char> {
    match s {
        Some(v) => v@,
        None => default,
    }
}

/// View of an optional string.
pub open spec fn opt_chars(s: Option<String>) -> Option<Seq<char>> {
    match s {
        Some(v) => Some(v@),
        None => None,
    }
}

fn or_default(s: Option<String>, default: &str) -> (r: String)
    ensures
        r@ == setting_or(s, default@),
{
    match s {
        Some(v) => v,
        None => default.to_owned(),
    }
}

impl Config {
    /// The configuration from the settings found: each absent one takes its default
    /// (`127.0.0.1:8080`, `ozone.db`, `Ozone`, `open`), and an empty instance password
    /// counts as none.
    pub fn from_settings(
        bind: Option<String>,
        db_path: Option<String>,
        instance_name: Option<String>,
        instance_description: Option<String>,
        registration_policy: Option<String>,
        instance_password: Option<String>,
        version: String,
    ) -> (c: Config)
        ensures
            c.bind@ == setting_or(bind, "127.0.0.1:8080"@),
            c.db_path@ == setting_or(db_path, "ozone.db"@),
            c.instance_name@ == setting_or(instance_name, "Ozone"@),
            opt_chars(c.instance_description) == opt_chars(instance_description),
            c.registration_policy@ == setting_or(registration_policy, "open"@),
            opt_chars(c.instance_password) == (match instance_password {
                Some(p) => if p@.len() > 0 { Some(p@) } else { None },
                None => None,
            }),
            c.version@ == version@,
    {
        let password = match instance_password {
            Some(p) => if char_count(p.as_str()) > 0 { Some(p) } else { None },
            None => None,
        };
        Config {
            bind: or_default(bind, "127.0.0.1:8080"),
            db_path: or_default(db_path, "ozone.db"),
            instance_name: or_default(instance_name, "Ozone"),
            instance_description,
            registration_policy: or_default(registration_policy, "open"),
            instance_password: password,
            version,
        }
    }
}

} // verus!
