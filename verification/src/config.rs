//! Settings of a state node, with the overrides that may be given as
//! decimal text (from the environment).
use crate::text::to_owned_string;
use vstd::prelude::*;

verus! {

/// The value of a decimal digit character, if it is one.
pub open spec fn digit_value(c: char) -> Option<nat> {
    if '0' <= c && c <= '9' {
        Some((c as nat - '0' as nat) as nat)
    } else {
        None
    }
}

/// The value of a string of decimal digits (most significant first), if
/// every character is a digit.
pub open spec fn digits_value(s: Seq<char>) -> Option<nat>
    decreases s.len(),
{
    if s.len() == 0 {
        Some(0)
    } else {
        match (digits_value(s.drop_last()), digit_value(s.last())) {
            (Some(v), Some(d)) => Some(v * 10 + d),
            _ => None,
        }
    }
}

/// What `str::parse::<u64>` gives: digits, optionally after one `+`, at
/// least one of them, of a value that fits in a `u64`.
pub open spec fn parsed_u64(s: Seq<char>) -> Option<u64> {
    let digits = if s.len() > 0 && s[0] == '+' {
        s.drop_first()
    } else {
        s
    };
    if digits.len() == 0 {
        None
    } else {
        match digits_value(digits) {
            Some(v) => if v <= u64::MAX {
                Some(v as u64)
            } else {
                None
            },
            None => None,
        }
    }
}

/// Reads a decimal `u64` as `str::parse` does.
pub fn parse_u64(s: &str) -> (r: Option<u64>)
    ensures
        r == parsed_u64(s@),
{
    let n = s.unicode_len();
    let mut i: usize = 0;
    if n > 0 && s.get_char(0) == '+' {
        i = 1;
    }
    let ghost digits = if s@.len() > 0 && s@[0] == '+' {
        s@.drop_first()
    } else {
        s@
    };
    let start = i;
    proof {
        assert(digits =~= s@.subrange(start as int, n as int));
    }
    if start == n {
        return None;
    }
    let mut value: u64 = 0;
    while i < n
        invariant
            n == s@.len(),
            start <= i <= n,
            digits == s@.subrange(start as int, n as int),
            digits == (if s@.len() > 0 && s@[0] == '+' {
                s@.drop_first()
            } else {
                s@
            }),
            digits_value(s@.subrange(start as int, i as int)) == Some(value as nat),
        decreases n - i,
    {
        let c = s.get_char(i);
        proof {
            assert(s@.subrange(start as int, i + 1).drop_last() =~= s@.subrange(start as int, i as int));
            assert(s@.subrange(start as int, i + 1).last() == c);
            assert(s@.subrange(start as int, n as int).subrange(0, i + 1 - start) =~= s@.subrange(
                start as int,
                i + 1,
            ));
        }
        if c < '0' || c > '9' {
            proof {
                lemma_digits_none_extends(s@.subrange(start as int, i + 1), s@.subrange(start as int, n as int));
            }
            return None;
        }
        let d = (c as u32 - '0' as u32) as u64;
        proof {
            assert(d as nat == c as nat - '0' as nat);
        }
        if value > (u64::MAX - d) / 10 {
            proof {
                assert(value as nat * 10 + d as nat > u64::MAX) by (nonlinear_arith)
                    requires
                        value > (u64::MAX - d) / 10,
                        d <= 9,
                ;
                lemma_digits_grow(s@.subrange(start as int, i + 1), s@.subrange(start as int, n as int));
            }
            return None;
        }
        proof {
            assert(value as nat * 10 + d as nat <= u64::MAX) by (nonlinear_arith)
                requires
                    value <= (u64::MAX - d) / 10,
                    d <= 9,
            ;
        }
        value = value * 10 + d;
        i = i + 1;
    }
    Some(value)
}

/// A string whose prefix is not all digits is not all digits.
proof fn lemma_digits_none_extends(prefix: Seq<char>, s: Seq<char>)
    requires
        prefix.len() <= s.len(),
        prefix == s.subrange(0, prefix.len() as int),
        digits_value(prefix) is None,
    ensures
        digits_value(s) is None,
    decreases s.len(),
{
    if s.len() > prefix.len() {
        assert(s.drop_last().subrange(0, prefix.len() as int) =~= prefix);
        lemma_digits_none_extends(prefix, s.drop_last());
    } else {
        assert(s =~= prefix);
    }
}

/// A string of digits is worth at least any of its prefixes.
proof fn lemma_digits_grow(prefix: Seq<char>, s: Seq<char>)
    requires
        prefix.len() <= s.len(),
        prefix == s.subrange(0, prefix.len() as int),
        digits_value(prefix) is Some,
    ensures
        digits_value(s) matches Some(v) ==> v >= digits_value(prefix)->0,
    decreases s.len(),
{
    if s.len() > prefix.len() {
        assert(s.drop_last().subrange(0, prefix.len() as int) =~= prefix);
        lemma_digits_grow(prefix, s.drop_last());
    } else {
        assert(s =~= prefix);
    }
}

/// The settings of a state node.
#[derive(Debug, Clone, PartialEq, Eq)]
pub struct StateNodeConfig {
    /// Directory of the persisted state.
    pub data_dir: String,
    /// Address of the HTTP API.
    pub http_addr: String,
    /// The node's id, generated when not given.
    pub node_id: Option<String>,
    /// Seconds between synchronisations.
    pub sync_interval_secs: u64,
    /// Seconds between retries of unsent events.
    pub outbox_retry_interval_secs: u64,
    /// The least number of members a content should have.
    pub min_replication_factor: usize,
    /// Free capacity, in bytes, below which a node counts as low on storage.
    pub capacity_threshold_bytes: u64,
}

impl Default for StateNodeConfig {
    fn default() -> (r: Self)
        ensures
            r.data_dir@ == "data"@,
            r.http_addr@ == "127.0.0.1:8080"@,
            r.node_id is None,
            r.sync_interval_secs == 30,
            r.outbox_retry_interval_secs == 10,
            r.min_replication_factor == 3,
            r.capacity_threshold_bytes == 1_073_741_824,
    {
        StateNodeConfig {
            data_dir: to_owned_string("data"),
            http_addr: to_owned_string("127.0.0.1:8080"),
            node_id: None,
            sync_interval_secs: 30,
            outbox_retry_interval_secs: 10,
            min_replication_factor: 3,
            capacity_threshold_bytes: 1_073_741_824,
        }
    }
}

impl StateNodeConfig {
    /// The settings with the replication factor and capacity threshold
    /// taken from decimal text where it is given and reads as a number;
    /// otherwise the settings keep their values.
    pub fn with_overrides(self, min_replication_factor: Option<&str>, capacity_threshold_bytes: Option<&str>) -> (r: Self)
        ensures
            r.data_dir == self.data_dir,
            r.http_addr == self.http_addr,
            r.node_id == self.node_id,
            r.sync_interval_secs == self.sync_interval_secs,
            r.outbox_retry_interval_secs == self.outbox_retry_interval_secs,
            r.min_replication_factor == match min_replication_factor {
                Some(t) => match parsed_u64(t@) {
                    Some(v) if v <= usize::MAX => v as usize,
                    _ => self.min_replication_factor,
                },
                None => self.min_replication_factor,
            },
            r.capacity_threshold_bytes == match capacity_threshold_bytes {
                Some(t) => match parsed_u64(t@) {
                    Some(v) => v,
                    None => self.capacity_threshold_bytes,
                },
                None => self.capacity_threshold_bytes,
            },
    {
        let mut c = self;
        match min_replication_factor {
            Some(t) => match parse_u64(t) {
                Some(v) => {
                    if v <= usize::MAX as u64 {
                        c.min_replication_factor = v as usize;
                    }
                },
                None => {},
            },
            None => {},
        }
        match capacity_threshold_bytes {
            Some(t) => match parse_u64(t) {
                Some(v) => {
                    c.capacity_threshold_bytes = v;
                },
                None => {},
            },
            None => {},
        }
        c
    }
}

} // verus!
