//! Resolution of the listen address from an optional textual port value.
//!
//! The port variable, when present and parseable as an unsigned 16-bit
//! integer, gives the port; any absent, empty, non-numeric or out-of-range
//! value silently falls back to the default port.

use vstd::prelude::*;

verus! {

/// The port used when no valid port text is supplied.
pub const DEFAULT_PORT: u16 = 3000;

/// An ASCII decimal digit.
pub open spec fn is_digit(c: char) -> bool {
    48 <= c as int && c as int <= 57
}

/// The numeric value of an ASCII decimal digit.
pub open spec fn digit_value(c: char) -> int {
    c as int - 48
}

/// Every character of `s` is an ASCII decimal digit.
pub open spec fn all_digits(s: Seq<char>) -> bool {
    forall|i: int| 0 <= i < s.len() ==> is_digit(#[trigger] s[i])
}

/// The value of a sequence of decimal digits, most significant first.
pub open spec fn decimal_value(s: Seq<char>) -> int
    decreases s.len(),
{
    if s.len() == 0 {
        0
    } else {
        decimal_value(s.drop_last()) * 10 + digit_value(s.last())
    }
}

/// The digit portion of a port text: an optional leading `+` sign is
/// dropped, as the standard unsigned integer parser accepts one.
pub open spec fn digits_of(s: Seq<char>) -> Seq<char> {
    if s.len() > 0 && s[0] == '+' {
        s.subrange(1, s.len() as int)
    } else {
        s
    }
}

/// `s` is a valid port text: after dropping an optional leading `+`,
/// one or more decimal digits whose value fits in 16 bits.
pub open spec fn is_port_text(s: Seq<char>) -> bool {
    digits_of(s).len() > 0 && all_digits(digits_of(s)) && decimal_value(digits_of(s)) <= 65535
}

/// The port that an optional port variable value resolves to: the
/// written value when it is a valid port text, the default otherwise.
pub open spec fn spec_resolved_port(v: Option<Seq<char>>) -> int {
    match v {
        Some(s) => if is_port_text(s) {
            decimal_value(digits_of(s))
        } else {
            DEFAULT_PORT as int
        },
        None => DEFAULT_PORT as int,
    }
}

/// The views of an optional borrowed string.
pub open spec fn text_of(v: Option<&str>) -> Option<Seq<char>> {
    match v {
        Some(s) => Some(s@),
        None => None,
    }
}

proof fn lemma_all_digits_drop_last(s: Seq<char>)
    requires
        all_digits(s),
        s.len() > 0,
    ensures
        all_digits(s.drop_last()),
{
    assert forall|i: int| 0 <= i < s.drop_last().len() implies is_digit(#[trigger] s.drop_last()[i]) by {
        assert(s.drop_last()[i] == s[i]);
    }
}

proof fn lemma_decimal_value_nonneg(s: Seq<char>)
    requires
        all_digits(s),
    ensures
        decimal_value(s) >= 0,
    decreases s.len(),
{
    if s.len() > 0 {
        lemma_all_digits_drop_last(s);
        lemma_decimal_value_nonneg(s.drop_last());
        assert(is_digit(s.last()));
    }
}

/// The value of a prefix of a digit string never exceeds the value of
/// the whole string.
proof fn lemma_decimal_value_prefix_le(s: Seq<char>, i: int)
    requires
        all_digits(s),
        0 <= i <= s.len(),
    ensures
        decimal_value(s.subrange(0, i)) <= decimal_value(s),
    decreases s.len() - i,
{
    if i == s.len() {
        assert(s.subrange(0, i) =~= s);
    } else {
        lemma_decimal_value_prefix_le(s, i + 1);
        let pre = s.subrange(0, i);
        let t = s.subrange(0, i + 1);
        assert(t.drop_last() =~= pre);
        assert(t.last() == s[i]);
        assert forall|j: int| 0 <= j < pre.len() implies is_digit(#[trigger] pre[j]) by {
            assert(pre[j] == s[j]);
        }
        lemma_decimal_value_nonneg(pre);
        assert(is_digit(s[i]));
        assert(decimal_value(t) == decimal_value(pre) * 10 + digit_value(s[i]));
        assert(decimal_value(pre) * 10 == decimal_value(pre) + decimal_value(pre) * 9);
    }
}

/// Parse a port number from text, exactly as the standard unsigned
/// 16-bit parser does: an optional leading `+`, then one or more
/// decimal digits, value at most 65535.
pub fn parse_port(s: &str) -> (r: Option<u16>)
    ensures
        match r {
            Some(p) => is_port_text(s@) && p as int == decimal_value(digits_of(s@)),
            None => !is_port_text(s@),
        },
{
    let len = s.unicode_len();
    if len == 0 {
        return None;
    }
    let first = s.get_char(0);
    let start: usize = if first == '+' {
        1
    } else {
        0
    };
    proof {
        assert(s@.subrange(0, len as int) =~= s@);
        assert(digits_of(s@) =~= s@.subrange(start as int, len as int));
    }
    if start == len {
        // A bare sign with no digits is not a port text.
        assert(digits_of(s@).len() == 0);
        return None;
    }
    let ghost d = digits_of(s@);
    let mut i: usize = start;
    let mut acc: u32 = 0;
    while i < len
        invariant
            start <= i <= len,
            len == s@.len(),
            d == digits_of(s@),
            d == s@.subrange(start as int, len as int),
            all_digits(s@.subrange(start as int, i as int)),
            acc as int == decimal_value(s@.subrange(start as int, i as int)),
            acc <= 65535,
        decreases len - i,
    {
        let c = s.get_char(i);
        let cv = c as u32;
        if cv < 48 || cv > 57 {
            proof {
                assert(d[i - start] == s@[i as int]);
                assert(!is_digit(d[i - start]));
            }
            return None;
        }
        let dig: u32 = cv - 48;
        let new_acc: u32 = acc * 10 + dig;
        proof {
            let pre = s@.subrange(start as int, i as int);
            let t = s@.subrange(start as int, i + 1);
            assert(t.drop_last() =~= pre);
            assert(t.last() == s@[i as int]);
            assert(is_digit(s@[i as int]));
            assert forall|j: int| 0 <= j < t.len() implies is_digit(#[trigger] t[j]) by {
                if j < pre.len() {
                    assert(t[j] == pre[j]);
                } else {
                    assert(t[j] == s@[i as int]);
                }
            }
            assert(decimal_value(t) == decimal_value(pre) * 10 + digit_value(s@[i as int]));
        }
        if new_acc > 65535 {
            proof {
                if all_digits(d) {
                    let t = s@.subrange(start as int, i + 1);
                    assert(t =~= d.subrange(0, i + 1 - start));
                    lemma_decimal_value_prefix_le(d, i + 1 - start);
                    assert(decimal_value(d) > 65535);
                }
            }
            return None;
        }
        acc = new_acc;
        i += 1;
    }
    proof {
        assert(s@.subrange(start as int, len as int) == d);
        assert(d.len() > 0);
        assert(is_port_text(s@));
    }
    Some(acc as u16)
}

/// Resolve the listen port from an optional port variable value,
/// falling back to the default on any absent or invalid value.
pub fn resolve_port(port_var: Option<&str>) -> (p: u16)
    ensures
        p as int == spec_resolved_port(text_of(port_var)),
{
    match port_var {
        None => DEFAULT_PORT,
        Some(s) => match parse_port(s) {
            Some(p) => p,
            None => DEFAULT_PORT,
        },
    }
}

/// A listen address: four IPv4 host octets and a port.
pub struct BindAddr {
    pub host: (u8, u8, u8, u8),
    pub port: u16,
}

/// The wildcard host, binding on all interfaces.
pub open spec fn wildcard_host() -> (u8, u8, u8, u8) {
    (0u8, 0u8, 0u8, 0u8)
}

/// Resolve the bind address from an optional port variable value: the
/// wildcard host together with the resolved port.
pub fn resolve_addr(port_var: Option<&str>) -> (addr: BindAddr)
    ensures
        addr.host == wildcard_host(),
        addr.port as int == spec_resolved_port(text_of(port_var)),
{
    let port = resolve_port(port_var);
    BindAddr { host: (0, 0, 0, 0), port }
}

/// Law: a valid port text resolves to exactly the value it writes.
pub proof fn lemma_valid_port_used(s: Seq<char>)
    requires
        is_port_text(s),
    ensures
        spec_resolved_port(Some(s)) == decimal_value(digits_of(s)),
{
}

/// Law: any absent or invalid port variable value resolves to the
/// default port.
pub proof fn lemma_invalid_port_defaults(v: Option<Seq<char>>)
    requires
        v matches Some(s) ==> !is_port_text(s),
    ensures
        spec_resolved_port(v) == DEFAULT_PORT,
{
}

} // verus!
