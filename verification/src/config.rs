//! Configuration values, resolved to plain data before the reactor starts:
//! a dotted-quad address, a decimal port, and the role flag.  The
//! surrounding process obtains the raw strings (environment, command line);
//! this module decides, exactly, which of them are valid.

use vstd::prelude::*;

verus! {

/// The byte `.` that separates the four octets of a dotted quad.
pub const DOT: u8 = 46;

pub open spec fn is_digit(b: u8) -> bool {
    48 <= b <= 57
}

pub open spec fn digit_val(b: u8) -> nat {
    (b - 48) as nat
}

pub open spec fn all_digits(s: Seq<u8>) -> bool {
    forall|m: int| 0 <= m < s.len() ==> is_digit(s[m])
}

/// The number a run of decimal digits denotes, most significant first.
pub open spec fn digits_value(s: Seq<u8>) -> nat
    decreases s.len(),
{
    if s.len() == 0 {
        0
    } else {
        digits_value(s.drop_last()) * 10 + digit_val(s.last())
    }
}

/// One octet of a dotted quad: one to three digits, at most 255, and no
/// leading zero unless the octet is exactly `0`.
pub open spec fn valid_octet(s: Seq<u8>) -> bool {
    &&& 1 <= s.len() <= 3
    &&& all_digits(s)
    &&& digits_value(s) <= 255
    &&& (s.len() > 1 ==> s[0] != 48)
}

/// `s` splits into four valid octets at the dots `i < j < k`.
pub open spec fn ipv4_split_at(s: Seq<u8>, i: int, j: int, k: int) -> bool {
    &&& 0 <= i < j < k < s.len()
    &&& s[i] == DOT
    &&& s[j] == DOT
    &&& s[k] == DOT
    &&& valid_octet(s.subrange(0, i))
    &&& valid_octet(s.subrange(i + 1, j))
    &&& valid_octet(s.subrange(j + 1, k))
    &&& valid_octet(s.subrange(k + 1, s.len() as int))
}

/// `s` is a valid dotted-quad address.
pub open spec fn is_valid_ipv4(s: Seq<u8>) -> bool {
    exists|i: int, j: int, k: int| ipv4_split_at(s, i, j, k)
}

/// `s` is a valid decimal port: at least one digit, value at most 65535.
pub open spec fn is_valid_port(s: Seq<u8>) -> bool {
    &&& s.len() >= 1
    &&& all_digits(s)
    &&& digits_value(s) <= 65535
}

fn digit_at(s: &Vec<u8>, m: usize) -> (r: bool)
    requires
        m < s@.len(),
    ensures
        r == is_digit(s@[m as int]),
{
    48 <= s[m] && s[m] <= 57
}

proof fn lemma_digits_value_step(s: Seq<u8>, a: int, m: int)
    requires
        0 <= a <= m < s.len(),
    ensures
        digits_value(s.subrange(a, m + 1)) == digits_value(s.subrange(a, m)) * 10 + digit_val(
            s[m],
        ),
{
    let t = s.subrange(a, m + 1);
    assert(t.drop_last() =~= s.subrange(a, m));
    assert(t.last() == s[m]);
}

proof fn lemma_digits_prefix_le(s: Seq<u8>, m: int)
    requires
        0 <= m <= s.len(),
    ensures
        digits_value(s.subrange(0, m)) <= digits_value(s),
    decreases s.len() - m,
{
    if m < s.len() {
        lemma_digits_value_step(s, 0, m);
        lemma_digits_prefix_le(s, m + 1);
    } else {
        assert(s.subrange(0, m) =~= s);
    }
}

/// Parses the digits of `s` between `from` and `to` as one octet.
fn parse_octet(s: &Vec<u8>, from: usize, to: usize) -> (r: Option<u8>)
    requires
        from <= to <= s@.len(),
    ensures
        (r is Some) == valid_octet(s@.subrange(from as int, to as int)),
        r matches Some(v) ==> v == digits_value(s@.subrange(from as int, to as int)),
{
    let ghost part = s@.subrange(from as int, to as int);
    let len = to - from;
    if len < 1 || len > 3 {
        return None;
    }
    if len > 1 && s[from] == 48 {
        proof {
            assert(part[0] == s@[from as int]);
        }
        return None;
    }
    let mut acc: u32 = 0;
    let mut m = from;
    while m < to
        invariant
            from <= m <= to <= s@.len(),
            to - from <= 3,
            part == s@.subrange(from as int, to as int),
            acc == digits_value(s@.subrange(from as int, m as int)),
            m - from == 0 ==> acc == 0,
            m - from == 1 ==> acc <= 9,
            m - from == 2 ==> acc <= 99,
            m - from == 3 ==> acc <= 999,
            forall|p: int| from <= p < m ==> is_digit(s@[p]),
        decreases to - m,
    {
        if !digit_at(s, m) {
            proof {
                assert(part[m - from] == s@[m as int]);
            }
            return None;
        }
        proof {
            lemma_digits_value_step(s@, from as int, m as int);
        }
        acc = acc * 10 + ((s[m] - 48) as u32);
        m = m + 1;
    }
    proof {
        assert(forall|p: int| 0 <= p < part.len() ==> part[p] == s@[from + p]);
    }
    if acc <= 255 {
        Some(acc as u8)
    } else {
        None
    }
}

/// Finds the first dot at or after `from`.
fn find_dot(s: &Vec<u8>, from: usize) -> (r: Option<usize>)
    requires
        from <= s@.len(),
    ensures
        match r {
            Some(p) => from <= p < s@.len() && s@[p as int] == DOT && forall|m: int|
                from <= m < p ==> s@[m] != DOT,
            None => forall|m: int| from <= m < s@.len() ==> s@[m] != DOT,
        },
{
    let n = s.len();
    let mut p = from;
    while p < n
        invariant
            from <= p <= n == s@.len(),
            forall|m: int| from <= m < p ==> s@[m] != DOT,
        decreases n - p,
    {
        if s[p] == DOT {
            return Some(p);
        }
        p = p + 1;
    }
    None
}

/// In any valid split, the first separator is the string's first dot.
proof fn lemma_first_dot_forced(s: Seq<u8>, i: int, i2: int, j2: int, k2: int)
    requires
        ipv4_split_at(s, i2, j2, k2),
        0 <= i < s.len(),
        s[i] == DOT,
        forall|m: int| 0 <= m < i ==> s[m] != DOT,
    ensures
        i2 == i,
{
    assert forall|m: int| 0 <= m < i2 implies s[m] != DOT by {
        assert(s.subrange(0, i2)[m] == s[m]);
    }
}

/// In any valid split, the second separator is the first dot after the
/// first one.
proof fn lemma_second_dot_forced(s: Seq<u8>, i: int, j: int, i2: int, j2: int, k2: int)
    requires
        ipv4_split_at(s, i2, j2, k2),
        0 <= i < j < s.len(),
        s[i] == DOT,
        s[j] == DOT,
        forall|m: int| 0 <= m < i ==> s[m] != DOT,
        forall|m: int| i < m < j ==> s[m] != DOT,
    ensures
        i2 == i && j2 == j,
{
    lemma_first_dot_forced(s, i, i2, j2, k2);
    assert forall|m: int| i2 < m < j2 implies s[m] != DOT by {
        assert(s.subrange(i2 + 1, j2)[m - i2 - 1] == s[m]);
    }
}

/// Any split of `s` into four octets must use exactly the first three
/// dots, because an octet never contains a dot.
proof fn lemma_split_positions_forced(s: Seq<u8>, i: int, j: int, k: int, i2: int, j2: int, k2: int)
    requires
        ipv4_split_at(s, i2, j2, k2),
        0 <= i < j < k < s.len(),
        s[i] == DOT && s[j] == DOT && s[k] == DOT,
        forall|m: int| 0 <= m < i ==> s[m] != DOT,
        forall|m: int| i < m < j ==> s[m] != DOT,
        forall|m: int| j < m < k ==> s[m] != DOT,
    ensures
        i2 == i && j2 == j && k2 == k,
{
    lemma_second_dot_forced(s, i, j, i2, j2, k2);
    assert forall|m: int| j2 < m < k2 implies s[m] != DOT by {
        assert(s.subrange(j2 + 1, k2)[m - j2 - 1] == s[m]);
    }
}

/// Parses a dotted-quad address.  Succeeds exactly on valid addresses, and
/// the four numbers returned are the values of the four octets.
pub fn parse_ipv4(s: &Vec<u8>) -> (r: Option<(u8, u8, u8, u8)>)
    ensures
        (r is Some) == is_valid_ipv4(s@),
        r matches Some(q) ==> forall|i: int, j: int, k: int|
            ipv4_split_at(s@, i, j, k) ==> q.0 == digits_value(s@.subrange(0, i)) && q.1
                == digits_value(s@.subrange(i + 1, j)) && q.2 == digits_value(
                s@.subrange(j + 1, k),
            ) && q.3 == digits_value(s@.subrange(k + 1, s@.len() as int)),
{
    let n = s.len();
    let i = match find_dot(s, 0) {
        Some(p) => p,
        None => {
            proof {
                assert forall|i2: int, j2: int, k2: int| !ipv4_split_at(s@, i2, j2, k2) by {}
            }
            return None;
        },
    };
    let j = match find_dot(s, i + 1) {
        Some(p) => p,
        None => {
            proof {
                assert forall|i2: int, j2: int, k2: int| !ipv4_split_at(s@, i2, j2, k2) by {
                    if ipv4_split_at(s@, i2, j2, k2) {
                        lemma_first_dot_forced(s@, i as int, i2, j2, k2);
                    }
                }
            }
            return None;
        },
    };
    let k = match find_dot(s, j + 1) {
        Some(p) => p,
        None => {
            proof {
                assert forall|i2: int, j2: int, k2: int| !ipv4_split_at(s@, i2, j2, k2) by {
                    if ipv4_split_at(s@, i2, j2, k2) {
                        lemma_second_dot_forced(s@, i as int, j as int, i2, j2, k2);
                    }
                }
            }
            return None;
        },
    };
    // a fourth dot anywhere after k makes the tail octet invalid
    match find_dot(s, k + 1) {
        Some(p) => {
            proof {
                assert forall|i2: int, j2: int, k2: int| !ipv4_split_at(s@, i2, j2, k2) by {
                    if ipv4_split_at(s@, i2, j2, k2) {
                        lemma_split_positions_forced(
                            s@, i as int, j as int, k as int, i2, j2, k2);
                        assert(s@.subrange(k2 + 1, s@.len() as int)[p - k2 - 1] == s@[p as int]);
                    }
                }
            }
            return None;
        },
        None => {},
    }
    let a = parse_octet(s, 0, i);
    let b = parse_octet(s, i + 1, j);
    let c = parse_octet(s, j + 1, k);
    let d = parse_octet(s, k + 1, n);
    match (a, b, c, d) {
        (Some(a), Some(b), Some(c), Some(d)) => {
            proof {
                assert(ipv4_split_at(s@, i as int, j as int, k as int));
                assert forall|i2: int, j2: int, k2: int|
                    ipv4_split_at(s@, i2, j2, k2) implies i2 == i && j2 == j && k2 == k by {
                    lemma_split_positions_forced(s@, i as int, j as int, k as int, i2, j2, k2);
                }
            }
            Some((a, b, c, d))
        },
        _ => {
            proof {
                assert forall|i2: int, j2: int, k2: int| !ipv4_split_at(s@, i2, j2, k2) by {
                    if ipv4_split_at(s@, i2, j2, k2) {
                        lemma_split_positions_forced(
                            s@, i as int, j as int, k as int, i2, j2, k2);
                    }
                }
            }
            None
        },
    }
}

/// Parses a decimal port.  Succeeds exactly when every byte is a digit,
/// there is at least one, and the value fits a port number.
pub fn parse_port(s: &Vec<u8>) -> (r: Option<u16>)
    ensures
        (r is Some) == is_valid_port(s@),
        r matches Some(v) ==> v == digits_value(s@),
{
    let n = s.len();
    if n == 0 {
        return None;
    }
    let mut acc: u32 = 0;
    let mut m: usize = 0;
    while m < n
        invariant
            0 <= m <= n == s@.len(),
            acc == digits_value(s@.subrange(0, m as int)),
            acc <= 65535,
            forall|p: int| 0 <= p < m ==> is_digit(s@[p]),
        decreases n - m,
    {
        if !digit_at(s, m) {
            return None;
        }
        proof {
            lemma_digits_value_step(s@, 0, m as int);
        }
        let next = acc * 10 + ((s[m] - 48) as u32);
        if next > 65535 {
            proof {
                lemma_digits_prefix_le(s@, m + 1);
            }
            return None;
        }
        acc = next;
        m = m + 1;
    }
    proof {
        assert(s@.subrange(0, n as int) =~= s@);
    }
    Some(acc as u16)
}

/// The resolved configuration the reactor starts from: the role, the
/// address as four plain octet values, and the port.
#[derive(Clone, Copy, Debug, PartialEq, Eq)]
pub struct ChannelConfig {
    pub callback: bool,
    pub ip: (u8, u8, u8, u8),
    pub port: u16,
}

/// Why a raw configuration was rejected before the reactor started.
#[derive(Clone, Copy, Debug, PartialEq, Eq, Structural)]
pub enum ConfigError {
    MissingCallbackAddress,
    InvalidCallbackAddress,
    MissingPort,
    InvalidPort,
}

/// Resolves the raw configuration strings.  In the callback role the
/// address is required and must be a valid dotted quad; in the listening
/// role the wildcard address is used.  The port is always required and must
/// be a valid decimal port.  Address errors are reported before port
/// errors; on a valid role, address and port, success is owed, with the
/// address's four octet values and the port value tied to the input.
pub fn resolve_config(
    callback: bool,
    ip_bytes: Option<&Vec<u8>>,
    port_bytes: Option<&Vec<u8>>,
) -> (r: Result<ChannelConfig, ConfigError>)
    ensures
        callback && ip_bytes is None ==> r == Err::<ChannelConfig, _>(
            ConfigError::MissingCallbackAddress,
        ),
        (callback && (ip_bytes matches Some(ip) && !is_valid_ipv4(ip@))) ==> r == Err::<
            ChannelConfig,
            _,
        >(ConfigError::InvalidCallbackAddress),
        (!callback || (ip_bytes matches Some(ip) && is_valid_ipv4(ip@))) && port_bytes is None
            ==> r == Err::<ChannelConfig, _>(ConfigError::MissingPort),
        (!callback || (ip_bytes matches Some(ip) && is_valid_ipv4(ip@))) && (port_bytes matches
            Some(p) && !is_valid_port(p@)) ==> r == Err::<ChannelConfig, _>(
            ConfigError::InvalidPort,
        ),
        (!callback || (ip_bytes matches Some(ip) && is_valid_ipv4(ip@))) && (port_bytes matches
            Some(p) && is_valid_port(p@)) ==> r is Ok,
        r matches Ok(cfg) ==> {
            &&& cfg.callback == callback
            &&& (port_bytes matches Some(p) && is_valid_port(p@) && cfg.port == digits_value(p@))
            &&& (!callback ==> cfg.ip == (0u8, 0u8, 0u8, 0u8))
            &&& (callback ==> (ip_bytes matches Some(ip) && is_valid_ipv4(ip@) && (forall|
                i: int,
                j: int,
                k: int,
            |
                ipv4_split_at(ip@, i, j, k) ==> cfg.ip.0 == digits_value(ip@.subrange(0, i))
                    && cfg.ip.1 == digits_value(ip@.subrange(i + 1, j)) && cfg.ip.2
                    == digits_value(ip@.subrange(j + 1, k)) && cfg.ip.3 == digits_value(
                    ip@.subrange(k + 1, ip@.len() as int),
                ))))
        },
{
    let ip: (u8, u8, u8, u8) = if callback {
        match ip_bytes {
            None => {
                return Err(ConfigError::MissingCallbackAddress);
            },
            Some(raw) => {
                match parse_ipv4(raw) {
                    None => {
                        return Err(ConfigError::InvalidCallbackAddress);
                    },
                    Some(q) => q,
                }
            },
        }
    } else {
        (0, 0, 0, 0)
    };
    match port_bytes {
        None => Err(ConfigError::MissingPort),
        Some(raw) => {
            match parse_port(raw) {
                None => Err(ConfigError::InvalidPort),
                Some(port) => Ok(ChannelConfig { callback, ip, port }),
            }
        },
    }
}

} // verus!
