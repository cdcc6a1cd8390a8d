//! Connection settings: defaults for the absent environment values and
//! best-effort parsing of the optional port number.

use vstd::prelude::*;

verus! {

/// Connection settings for the database pool, built once at startup and
/// never mutated afterwards.
pub struct Config {
    pub host: String,
    pub user: String,
    pub password: String,
    pub dbname: String,
    pub port: Option<u16>,
}

/// A decimal digit, as a character.
pub open spec fn is_dec_digit(c: char) -> bool {
    48 <= c as u32 && c as u32 <= 57
}

/// Numeric value of one decimal digit character.
pub open spec fn digit_val(c: char) -> int {
    c as u32 - 48
}

/// Every character of the sequence is a decimal digit.
pub open spec fn all_digits(s: Seq<char>) -> bool {
    forall|i: int| 0 <= i < s.len() ==> is_dec_digit(#[trigger] s[i])
}

/// Value of a sequence of decimal digit characters, most significant first.
pub open spec fn dec_val(s: Seq<char>) -> int
    decreases s.len(),
{
    if s.len() == 0 {
        0
    } else {
        dec_val(s.drop_last()) * 10 + digit_val(s.last())
    }
}

/// The digit part of a candidate port string: an optional leading `+` sign
/// is accepted and skipped, as `str::parse::<u16>` accepts it.
pub open spec fn digits_part(s: Seq<char>) -> Seq<char> {
    if s.len() > 0 && s[0] == '+' {
        s.drop_first()
    } else {
        s
    }
}

/// Whether the string is a decimal rendering of a 16-bit unsigned integer.
pub open spec fn is_valid_port(s: Seq<char>) -> bool {
    let d = digits_part(s);
    d.len() > 0 && all_digits(d) && dec_val(d) <= 65535
}

/// The port a string denotes, if any.
pub open spec fn port_of(s: Seq<char>) -> Option<u16> {
    if is_valid_port(s) {
        Some(dec_val(digits_part(s)) as u16)
    } else {
        None
    }
}

proof fn lemma_dec_val_nonneg(s: Seq<char>)
    requires
        all_digits(s),
    ensures
        dec_val(s) >= 0,
    decreases s.len(),
{
    if s.len() > 0 {
        assert forall|i: int| 0 <= i < s.drop_last().len() implies is_dec_digit(
            #[trigger] s.drop_last()[i],
        ) by {
            assert(s.drop_last()[i] == s[i]);
        }
        lemma_dec_val_nonneg(s.drop_last());
    }
}

/// A longer digit prefix never denotes a smaller value.
proof fn lemma_dec_val_prefix_le(s: Seq<char>, i: int, j: int)
    requires
        all_digits(s),
        0 <= i <= j <= s.len(),
    ensures
        dec_val(s.subrange(0, i)) <= dec_val(s.subrange(0, j)),
    decreases j - i,
{
    if i < j {
        lemma_dec_val_prefix_le(s, i, j - 1);
        let p = s.subrange(0, j);
        assert(p.drop_last() =~= s.subrange(0, j - 1));
        assert forall|k: int| 0 <= k < s.subrange(0, j - 1).len() implies is_dec_digit(
            #[trigger] s.subrange(0, j - 1)[k],
        ) by {
            assert(s.subrange(0, j - 1)[k] == s[k]);
        }
        lemma_dec_val_nonneg(s.subrange(0, j - 1));
        assert(p.last() == s[j - 1]);
        assert(is_dec_digit(s[j - 1]));
    }
}

/// Parses a decimal 16-bit integer, accepting an optional leading `+`
/// sign, and returns it exactly when the whole string is such a rendering
/// of a value at most 65535; on anything else it returns `None`.
pub fn parse_port(s: &str) -> (r: Option<u16>)
    ensures
        r == port_of(s@),
{
    let n = s.unicode_len();
    let has_sign: bool = n > 0 && s.get_char(0) == '+';
    let start: usize = if has_sign {
        1
    } else {
        0
    };
    proof {
        assert(digits_part(s@) =~= s@.subrange(start as int, n as int));
    }
    if start == n {
        return None;
    }
    let mut i: usize = start;
    let mut acc: u32 = 0;
    while i < n
        invariant
            n == s@.len(),
            start <= i <= n,
            start < n,
            start <= 1,
            digits_part(s@) =~= s@.subrange(start as int, n as int),
            all_digits(s@.subrange(start as int, i as int)),
            acc == dec_val(s@.subrange(start as int, i as int)),
            acc <= 65535,
        decreases n - i,
    {
        let c = s.get_char(i);
        let v = c as u32;
        if v < 48 || v > 57 {
            proof {
                let d = digits_part(s@);
                assert(d[i - start] == s@[i as int]);
                assert(!is_dec_digit(d[i - start]));
            }
            return None;
        }
        let dv: u32 = v - 48;
        proof {
            let ext = s@.subrange(start as int, i + 1);
            assert(ext.drop_last() =~= s@.subrange(start as int, i as int));
            assert(ext.last() == s@[i as int]);
            assert forall|k: int| 0 <= k < ext.len() implies is_dec_digit(#[trigger] ext[k]) by {
                if k < ext.len() - 1 {
                    assert(ext[k] == s@.subrange(start as int, i as int)[k]);
                }
            }
        }
        if acc > 6553 || (acc == 6553 && dv > 5) {
            proof {
                let d = digits_part(s@);
                if is_valid_port(s@) {
                    let ext = s@.subrange(start as int, i + 1);
                    assert(dec_val(ext) == acc * 10 + dv);
                    assert(dec_val(ext) > 65535);
                    assert(ext =~= d.subrange(0, i + 1 - start));
                    lemma_dec_val_prefix_le(d, i + 1 - start, d.len() as int);
                    assert(d.subrange(0, d.len() as int) =~= d);
                    assert(dec_val(d) > 65535);
                }
            }
            return None;
        }
        acc = acc * 10 + dv;
        i = i + 1;
    }
    proof {
        assert(s@.subrange(start as int, n as int) =~= digits_part(s@));
        assert(is_valid_port(s@));
    }
    Some(acc as u16)
}

/// The setting used when the environment supplies a value, or the given
/// default when it does not.
pub open spec fn or_default(v: Option<String>, d: Seq<char>) -> Seq<char> {
    match v {
        Some(s) => s@,
        None => d,
    }
}

/// The port setting derived from the environment value, if one was given:
/// an unparseable value is silently ignored rather than failing startup.
pub open spec fn port_setting(v: Option<String>) -> Option<u16> {
    match v {
        Some(s) => port_of(s@),
        None => None,
    }
}

/// Builds the connection settings from the raw environment values,
/// applying the documented default for each absent setting and parsing
/// the port best-effort.
pub fn load_config(
    host: Option<String>,
    user: Option<String>,
    password: Option<String>,
    dbname: Option<String>,
    port: Option<String>,
) -> (c: Config)
    ensures
        c.host@ == or_default(host, "postgres"@),
        c.user@ == or_default(user, "postgres"@),
        c.password@ == or_default(password, "password"@),
        c.dbname@ == or_default(dbname, "appdb"@),
        c.port == port_setting(port),
{
    let host = match host {
        Some(h) => h,
        None => String::from_str("postgres"),
    };
    let user = match user {
        Some(u) => u,
        None => String::from_str("postgres"),
    };
    let password = match password {
        Some(p) => p,
        None => String::from_str("password"),
    };
    let dbname = match dbname {
        Some(d) => d,
        None => String::from_str("appdb"),
    };
    let port = match port {
        Some(p) => parse_port(p.as_str()),
        None => None,
    };
    Config { host, user, password, dbname, port }
}

} // verus!
