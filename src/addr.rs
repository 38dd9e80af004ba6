//! The address canonicalizer: dotted-decimal IPv4 text to a 32-bit key.

use vstd::prelude::*;
use vstd::string::is_ascii;
use crate::error::LookupError;

verus! {

/// The pieces of `s` between dots, in order; `k` dots give `k + 1` pieces.
pub open spec fn split_dots(s: Seq<char>) -> Seq<Seq<char>>
    decreases s.len(),
{
    if s.len() == 0 {
        seq![Seq::<char>::empty()]
    } else {
        let p = split_dots(s.drop_last());
        if s.last() == '.' {
            p.push(Seq::<char>::empty())
        } else {
            p.update(p.len() - 1, p.last().push(s.last()))
        }
    }
}

pub open spec fn is_digit(c: char) -> bool {
    '0' <= c <= '9'
}

pub open spec fn digit_value(c: char) -> int {
    c as int - '0' as int
}

/// The number that a string of decimal digits writes.
pub open spec fn decimal_value(f: Seq<char>) -> int
    decreases f.len(),
{
    if f.len() == 0 {
        0
    } else {
        decimal_value(f.drop_last()) * 10 + digit_value(f.last())
    }
}

/// One or more decimal digits whose value lies in `[0, 255]`.
pub open spec fn is_octet(f: Seq<char>) -> bool {
    &&& f.len() > 0
    &&& forall|j: int| 0 <= j < f.len() ==> is_digit(#[trigger] f[j])
    &&& decimal_value(f) <= 255
}

/// Exactly four dot-separated octets, with nothing before or after.
pub open spec fn is_ipv4(s: Seq<char>) -> bool {
    let p = split_dots(s);
    &&& p.len() == 4
    &&& forall|k: int| 0 <= k < 4 ==> is_octet(#[trigger] p[k])
}

/// The big-endian key of four octets: `o0 * 2^24 + o1 * 2^16 + o2 * 2^8 + o3`.
pub open spec fn ipv4_key(s: Seq<char>) -> int {
    let p = split_dots(s);
    decimal_value(p[0]) * 16777216 + decimal_value(p[1]) * 65536 + decimal_value(p[2]) * 256
        + decimal_value(p[3])
}

/// The key of the first `n` pieces, read as base-256 digits.
spec fn prefix_key(p: Seq<Seq<char>>, n: int) -> int
    decreases n,
{
    if n <= 0 {
        0
    } else {
        prefix_key(p, n - 1) * 256 + decimal_value(p[n - 1])
    }
}

proof fn lemma_split_nonempty(s: Seq<char>)
    ensures
        split_dots(s).len() >= 1,
    decreases s.len(),
{
    if s.len() > 0 {
        lemma_split_nonempty(s.drop_last());
    }
}

proof fn lemma_prefix_key_same(p: Seq<Seq<char>>, q: Seq<Seq<char>>, n: int)
    requires
        0 <= n <= p.len(),
        n <= q.len(),
        forall|k: int| 0 <= k < n ==> p[k] == q[k],
    ensures
        prefix_key(p, n) == prefix_key(q, n),
    decreases n,
{
    if n > 0 {
        lemma_prefix_key_same(p, q, n - 1);
    }
}

/// What has been read of the current piece, and whether every piece so far
/// can still belong to an address.
spec fn sound_so_far(p: Seq<Seq<char>>) -> bool {
    &&& p.len() <= 4
    &&& forall|k: int| 0 <= k < p.len() - 1 ==> is_octet(#[trigger] p[k])
    &&& forall|j: int| 0 <= j < p.last().len() ==> is_digit(#[trigger] p.last()[j])
}

spec fn key_bound(n: int) -> int {
    if n == 0 {
        1
    } else if n == 1 {
        256
    } else if n == 2 {
        65536
    } else {
        16777216
    }
}

/// Parses dotted-decimal IPv4 text into its key. Anything but exactly four
/// dot-separated decimal octets, each at most 255, is `InvalidAddress`.
pub fn ip_string_to_number(ip: &str) -> (r: Result<u32, LookupError>)
    ensures
        r is Ok <==> is_ipv4(ip@),
        r matches Ok(k) ==> k == ipv4_key(ip@),
        r matches Err(e) ==> e == LookupError::InvalidAddress,
{
    let ghost s = ip@;
    let ascii = ip.is_ascii();
    let n = ip.unicode_len();
    let mut i: usize = 0;
    let mut ok = true;
    let mut fields: usize = 0;
    let mut acc: u32 = 0;
    let mut cur: u32 = 0;
    let mut cur_len: usize = 0;
    assert(s.take(0) =~= Seq::<char>::empty());
    while i < n
        invariant
            n == s.len(),
            s == ip@,
            ascii == is_ascii(ip),
            i <= n,
            split_dots(s.take(i as int)).len() >= 1,
            ok == sound_so_far(split_dots(s.take(i as int))),
            ok ==> {
                let p = split_dots(s.take(i as int));
                &&& fields == p.len() - 1
                &&& fields <= 3
                &&& acc == prefix_key(p, fields as int)
                &&& (acc as int) < key_bound(fields as int)
                &&& cur_len == p.last().len()
                &&& cur_len <= i
                &&& cur as int == if decimal_value(p.last()) < 256 {
                    decimal_value(p.last())
                } else {
                    256
                }
            },
        decreases n - i,
    {
        let code: u32 = if ascii {
            ip.get_ascii(i) as u32
        } else {
            ip.get_char(i) as u32
        };
        let ghost c = s[i as int];
        assert(code == c as u32);
        let ghost t = s.take(i + 1);
        let ghost p = split_dots(s.take(i as int));
        assert(t.drop_last() =~= s.take(i as int));
        assert(t.last() == c);
        proof {
            lemma_split_nonempty(t);
        }
        let ghost q = split_dots(t);
        if code == 46 {
            assert(q == p.push(Seq::<char>::empty()));
            if ok && cur_len > 0 && cur <= 255 && fields < 3 {
                proof {
                    lemma_prefix_key_same(p, q, fields as int);
                }
                assert(prefix_key(q, fields + 1) == prefix_key(q, fields as int) * 256
                    + decimal_value(q[fields as int]));
                acc = acc * 256 + cur;
                fields = fields + 1;
                cur = 0;
                cur_len = 0;
                assert(sound_so_far(q));
            } else {
                assert(!sound_so_far(q)) by {
                    if sound_so_far(q) {
                        assert(q[p.len() - 1] == p.last());
                        assert(is_octet(p.last()));
                        assert(forall|k: int| 0 <= k < p.len() - 1 ==> q[k] == p[k]);
                        assert(sound_so_far(p));
                    }
                }
                ok = false;
            }
        } else if 48 <= code && code <= 57 {
            let ghost f = p.last().push(c);
            assert(q == p.update(p.len() - 1, f));
            assert(f.drop_last() =~= p.last());
            if ok {
                proof {
                    lemma_prefix_key_same(p, q, fields as int);
                }
                let d = code - 48;
                let v = cur * 10 + d;
                cur = if v > 256 {
                    256
                } else {
                    v
                };
                cur_len = cur_len + 1;
                assert(q.last() == f);
                assert forall|j: int| 0 <= j < q.last().len() implies is_digit(
                    #[trigger] q.last()[j],
                ) by {
                    if j < f.len() - 1 {
                        assert(q.last()[j] == p.last()[j]);
                    }
                }
                assert(sound_so_far(q));
            } else {
                assert(!sound_so_far(q)) by {
                    if sound_so_far(q) {
                        assert forall|j: int| 0 <= j < p.last().len() implies is_digit(
                            #[trigger] p.last()[j],
                        ) by {
                            assert(q.last()[j] == p.last()[j]);
                        }
                        assert(forall|k: int| 0 <= k < p.len() - 1 ==> q[k] == p[k]);
                    }
                }
            }
        } else {
            let ghost f = p.last().push(c);
            assert(q == p.update(p.len() - 1, f));
            assert(q.last()[q.last().len() - 1] == c);
            ok = false;
            assert(!sound_so_far(q));
        }
        i = i + 1;
    }
    assert(s.take(n as int) =~= s);
    let ghost p = split_dots(s);
    if ok && fields == 3 && cur_len > 0 && cur <= 255 {
        assert(is_octet(p[3]));
        assert(is_ipv4(s));
        assert(prefix_key(p, 4) == ipv4_key(s)) by {
            reveal_with_fuel(prefix_key, 5);
        }
        Ok(acc * 256 + cur)
    } else {
        assert(!is_ipv4(s)) by {
            if is_ipv4(s) {
                assert(is_octet(p[0]) && is_octet(p[1]) && is_octet(p[2]) && is_octet(p[3]));
                assert(sound_so_far(p));
            }
        }
        Err(LookupError::InvalidAddress)
    }
}

} // verus!
