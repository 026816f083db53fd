//! Address classification for the wallet-check pipeline.
//!
//! An address is either *plain* — the literal marker `0x` followed by exactly
//! forty hexadecimal digits (a 20-byte identifier) — or *composite* — a
//! non-empty subnet identifier, the single reserved separator `/`, and then a
//! plain address. Everything else is invalid. Classification is pure, total,
//! and deterministic.

use vstd::prelude::*;
use vstd::string::StrSliceExecFns;

verus! {

/// Hexadecimal digit, either case.
pub open spec fn is_hex_char(c: char) -> bool {
    ('0' <= c && c <= '9') || ('a' <= c && c <= 'f') || ('A' <= c && c <= 'F')
}

/// Plain form: the marker `0x` followed by forty hex digits.
pub open spec fn valid_eth_address(s: Seq<char>) -> bool {
    &&& s.len() == 42
    &&& s[0] == '0'
    &&& s[1] == 'x'
    &&& forall|i: int| 2 <= i < 42 ==> is_hex_char(#[trigger] s[i])
}

/// Subnet identifier: non-empty and free of the reserved separator.
pub open spec fn valid_subnet_id(s: Seq<char>) -> bool {
    &&& s.len() >= 1
    &&& forall|i: int| 0 <= i < s.len() ==> #[trigger] s[i] != '/'
}

/// Composite form: subnet identifier, separator, plain address. The plain
/// part has fixed length 42 and never contains `/`, so the separator position
/// and with it the decomposition are unique.
pub open spec fn valid_composite_address(s: Seq<char>) -> bool {
    &&& s.len() >= 44
    &&& s[s.len() - 43] == '/'
    &&& valid_subnet_id(s.subrange(0, s.len() - 43))
    &&& valid_eth_address(s.subrange(s.len() - 42, s.len() as int))
}

/// The whole grammar: plain or composite. The two are disjoint (a plain
/// address has length 42, a composite one at least 44).
pub open spec fn valid_address(s: Seq<char>) -> bool {
    valid_eth_address(s) || valid_composite_address(s)
}

/// Subnet part of a composite address.
pub open spec fn subnet_part(s: Seq<char>) -> Seq<char> {
    s.subrange(0, s.len() - 43)
}

/// Bare identifier part: the whole string when plain, the suffix when composite.
pub open spec fn eth_part(s: Seq<char>) -> Seq<char> {
    if valid_eth_address(s) {
        s
    } else {
        s.subrange(s.len() - 42, s.len() as int)
    }
}

fn is_hex_char_exec(c: char) -> (r: bool)
    ensures
        r == is_hex_char(c),
{
    ('0' <= c && c <= '9') || ('a' <= c && c <= 'f') || ('A' <= c && c <= 'F')
}

/// Checks the plain-address grammar on the suffix of `s` starting at `start`.
fn is_eth_address_at(s: &str, start: usize, n: usize) -> (r: bool)
    requires
        n == s@.len(),
        start <= n,
    ensures
        r == valid_eth_address(s@.subrange(start as int, n as int)),
{
    let ghost sub = s@.subrange(start as int, n as int);
    if n - start != 42 {
        return false;
    }
    if s.get_char(start) != '0' || s.get_char(start + 1) != 'x' {
        proof {
            assert(sub[0] == s@[start as int]);
            assert(sub[1] == s@[start as int + 1]);
        }
        return false;
    }
    let mut i: usize = start + 2;
    while i < n
        invariant
            start + 2 <= i <= n,
            n == s@.len(),
            n - start == 42,
            sub == s@.subrange(start as int, n as int),
            forall|j: int| start + 2 <= j < i ==> is_hex_char(#[trigger] s@[j]),
        decreases n - i,
    {
        if !is_hex_char_exec(s.get_char(i)) {
            proof {
                assert(sub[i - start] == s@[i as int]);
            }
            return false;
        }
        i += 1;
    }
    proof {
        assert(sub[0] == s@[start as int]);
        assert(sub[1] == s@[start as int + 1]);
        assert forall|j: int| 2 <= j < 42 implies is_hex_char(#[trigger] sub[j]) by {
            assert(sub[j] == s@[start + j]);
        }
    }
    true
}

/// Accepts exactly the address grammar: plain or composite.
pub fn is_valid_ipc_address(s: &str) -> (r: bool)
    ensures
        r == valid_address(s@),
{
    let n = s.unicode_len();
    if n == 42 {
        proof {
            assert(s@.subrange(0, n as int) =~= s@);
        }
        is_eth_address_at(s, 0, n)
    } else if n >= 44 {
        let ghost pre = s@.subrange(0, n as int - 43);
        if s.get_char(n - 43) != '/' {
            return false;
        }
        let mut i: usize = 0;
        while i < n - 43
            invariant
                0 <= i <= n - 43,
                n == s@.len(),
                44 <= n <= usize::MAX,
                pre == s@.subrange(0, n as int - 43),
                forall|j: int| 0 <= j < i ==> #[trigger] s@[j] != '/',
            decreases n - 43 - i,
        {
            if s.get_char(i) == '/' {
                proof {
                    assert(pre[i as int] == s@[i as int]);
                }
                return false;
            }
            i += 1;
        }
        proof {
            assert forall|j: int| 0 <= j < pre.len() implies #[trigger] pre[j] != '/' by {
                assert(pre[j] == s@[j]);
            }
        }
        is_eth_address_at(s, n - 42, n)
    } else {
        false
    }
}

/// Result of classifying a raw address string.
pub enum Classification {
    Invalid,
    Plain { eth_address: String },
    Composite { subnet_id: String, eth_address: String },
}

/// Subnet identifier of a composite address; `None` for anything else
/// (a valid plain address carries no subnet, absence is a meaningful result).
pub fn extract_subnet_id(s: &str) -> (r: Option<String>)
    ensures
        valid_composite_address(s@) ==> (r matches Some(id) && id@ == subnet_part(s@)),
        !valid_composite_address(s@) ==> r is None,
{
    let n = s.unicode_len();
    if n >= 44 && is_valid_ipc_address(s) {
        Some(s.substring_char(0, n - 43).to_owned())
    } else {
        None
    }
}

/// Bare identifier of a valid address: the whole string when plain, the
/// suffix after the separator when composite; `None` when invalid.
pub fn extract_eth_address(s: &str) -> (r: Option<String>)
    ensures
        valid_address(s@) ==> (r matches Some(eth) && eth@ == eth_part(s@)),
        !valid_address(s@) ==> r is None,
{
    let n = s.unicode_len();
    if !is_valid_ipc_address(s) {
        None
    } else if n == 42 {
        Some(s.to_owned())
    } else {
        Some(s.substring_char(n - 42, n).to_owned())
    }
}

/// Total, deterministic classification: `Invalid` unless the grammar matches
/// exactly; otherwise the bare identifier, with the subnet identifier exactly
/// when the composite form was present.
pub fn classify(s: &str) -> (r: Classification)
    ensures
        !valid_address(s@) ==> r is Invalid,
        valid_eth_address(s@) ==> (r matches Classification::Plain { eth_address }
            && eth_address@ == s@),
        valid_composite_address(s@) ==> (r matches Classification::Composite {
            subnet_id,
            eth_address,
        } && subnet_id@ == subnet_part(s@) && eth_address@ == eth_part(s@)),
{
    let n = s.unicode_len();
    if !is_valid_ipc_address(s) {
        Classification::Invalid
    } else if n == 42 {
        Classification::Plain { eth_address: s.to_owned() }
    } else {
        Classification::Composite {
            subnet_id: s.substring_char(0, n - 43).to_owned(),
            eth_address: s.substring_char(n - 42, n).to_owned(),
        }
    }
}

/// Law: a valid plain form round-trips to the bare identifier it encoded —
/// classification of a plain address returns the address itself.
pub proof fn lemma_plain_round_trip(eth: Seq<char>)
    requires
        valid_eth_address(eth),
    ensures
        valid_address(eth),
        !valid_composite_address(eth),
        eth_part(eth) == eth,
{
}

/// Law: a valid composite form round-trips to the parts it encoded — for any
/// valid subnet identifier and bare identifier, the string
/// `id + "/" + eth` is a valid composite address whose subnet part is `id`
/// and whose bare part is `eth`.
pub proof fn lemma_composite_round_trip(id: Seq<char>, eth: Seq<char>)
    requires
        valid_subnet_id(id),
        valid_eth_address(eth),
    ensures
        valid_composite_address(id + seq!['/'] + eth),
        !valid_eth_address(id + seq!['/'] + eth),
        subnet_part(id + seq!['/'] + eth) == id,
        eth_part(id + seq!['/'] + eth) == eth,
{
    let s = id + seq!['/'] + eth;
    assert(s.len() == id.len() + 43);
    assert(s[s.len() - 43] == '/');
    assert(s.subrange(0, s.len() - 43) =~= id);
    assert(s.subrange(s.len() - 42, s.len() as int) =~= eth);
}

/// Law: a composite address decomposes in exactly one way — two encodings of
/// valid parts that spell the same string carry the same subnet identifier
/// and the same bare identifier.
pub proof fn lemma_composite_decomposition_unique(
    id1: Seq<char>,
    eth1: Seq<char>,
    id2: Seq<char>,
    eth2: Seq<char>,
)
    requires
        valid_subnet_id(id1),
        valid_eth_address(eth1),
        valid_subnet_id(id2),
        valid_eth_address(eth2),
        id1 + seq!['/'] + eth1 == id2 + seq!['/'] + eth2,
    ensures
        id1 == id2,
        eth1 == eth2,
{
    let s = id1 + seq!['/'] + eth1;
    assert(id1.len() == s.len() - 43);
    assert(id2.len() == s.len() - 43);
    assert(id1 =~= id2) by {
        assert forall|i: int| 0 <= i < id1.len() implies id1[i] == id2[i] by {
            assert(id1[i] == s[i]);
            assert(id2[i] == (id2 + seq!['/'] + eth2)[i]);
        }
    }
    assert(eth1 =~= eth2) by {
        assert forall|i: int| 0 <= i < 42 implies eth1[i] == eth2[i] by {
            assert(eth1[i] == s[s.len() - 42 + i]);
            assert(eth2[i] == (id2 + seq!['/'] + eth2)[s.len() - 42 + i]);
        }
    }
}

} // verus!
