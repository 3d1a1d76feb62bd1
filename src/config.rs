//! Server configuration.
use vstd::prelude::*;
use crate::text::{decimal_value, digit_value, is_digit};

verus! {

/// Port the server listens on when none is configured.
pub const DEFAULT_PORT: u16 = 8080;

/// Server configuration: listening port, data directory and the public
/// base URL used in install manifests (empty: derived per request).
#[derive(Debug, Clone)]
pub struct Config {
    pub port: u16,
    pub data_dir: String,
    pub public_base_url: String,
}

/// `s` is a non-empty run of decimal digits.
pub open spec fn all_digits(s: Seq<char>) -> bool {
    s.len() > 0 && forall|i: int| 0 <= i < s.len() ==> is_digit(#[trigger] s[i])
}

/// The port a configured value selects: a decimal number within `u16`,
/// else the default.
pub open spec fn port_of(v: Option<Seq<char>>) -> u16 {
    match v {
        Some(s) => if all_digits(s) && decimal_value(s) <= 65535 {
            decimal_value(s) as u16
        } else {
            DEFAULT_PORT
        },
        None => DEFAULT_PORT,
    }
}

/// Parses a port number written in decimal digits.
pub fn parse_port(s: &str) -> (r: Option<u16>)
    ensures
        r == (if all_digits(s@) && decimal_value(s@) <= 65535 {
            Some(decimal_value(s@) as u16)
        } else {
            None::<u16>
        }),
{
    let cs = crate::text::chars_of(s);
    if cs.len() == 0 {
        return None;
    }
    let mut v: u64 = 0;
    let mut i: usize = 0;
    while i < cs.len()
        invariant
            cs@ == s@,
            i <= cs@.len(),
            v <= 65535,
            v == decimal_value(cs@.subrange(0, i as int)),
            forall|j: int| 0 <= j < i ==> is_digit(#[trigger] cs@[j]),
        decreases cs.len() - i,
    {
        let c = cs[i];
        assert(cs@.subrange(0, i + 1).drop_last() =~= cs@.subrange(0, i as int));
        if !('0' <= c && c <= '9') {
            return None;
        }
        let d = (c as u32 - '0' as u32) as u64;
        assert(d == digit_value(c));
        v = v * 10 + d;
        i = i + 1;
        if v > 65535 {
            proof {
                lemma_decimal_value_prefix_grows(cs@, i as int);
            }
            return None;
        }
    }
    assert(cs@.subrange(0, i as int) =~= cs@);
    Some(v as u16)
}

/// A prefix of a digit string never has a larger value than the whole.
proof fn lemma_decimal_value_prefix_grows(s: Seq<char>, k: int)
    requires
        0 <= k <= s.len(),
    ensures
        decimal_value(s.subrange(0, k)) <= decimal_value(s),
    decreases s.len() - k,
{
    if k < s.len() {
        lemma_decimal_value_prefix_grows(s, k + 1);
        assert(s.subrange(0, k + 1).drop_last() =~= s.subrange(0, k));
    } else {
        assert(s.subrange(0, k) =~= s);
    }
}

impl Config {
    /// Builds the configuration from the values of `PORT`, `DATA_DIR` and
    /// `PUBLIC_BASE_URL`, each absent when unset.
    pub fn from_values(port: Option<&str>, data_dir: Option<String>, public_base_url: Option<String>) -> (r: Config)
        ensures
            r.port == port_of(match port { Some(p) => Some(p@), None => None }),
            r.data_dir@ == (match data_dir { Some(d) => d@, None => "./data"@ }),
            r.public_base_url@ == (match public_base_url { Some(u) => u@, None => Seq::<char>::empty() }),
    {
        let p = match port {
            Some(p) => match parse_port(p) {
                Some(n) => n,
                None => DEFAULT_PORT,
            },
            None => DEFAULT_PORT,
        };
        let d = match data_dir {
            Some(d) => d,
            None => String::from_str("./data"),
        };
        let u = match public_base_url {
            Some(u) => u,
            None => String::new(),
        };
        Config { port: p, data_dir: d, public_base_url: u }
    }

    /// Directory below which staged archives live: `<data_dir>/packages`.
    pub fn packages_dir(&self) -> (r: String)
        ensures
            r@ == self.data_dir@ + "/packages"@,
    {
        let mut s = self.data_dir.clone();
        s.append("/packages");
        s
    }

    /// File holding the persisted tasks: `<data_dir>/tasks.json`.
    pub fn tasks_file(&self) -> (r: String)
        ensures
            r@ == self.data_dir@ + "/tasks.json"@,
    {
        let mut s = self.data_dir.clone();
        s.append("/tasks.json");
        s
    }
}

impl Default for Config {
    fn default() -> (r: Config)
        ensures
            r.port == DEFAULT_PORT,
            r.data_dir@ == "./data"@,
            r.public_base_url@ == Seq::<char>::empty(),
    {
        Config { port: DEFAULT_PORT, data_dir: String::from_str("./data"), public_base_url: String::new() }
    }
}

} // verus!
