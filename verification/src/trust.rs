//! Which peers are admitted.
//!
//! Both machines identify themselves by a self-signed certificate. Instead
//! of verifying a chain, each side pins the peer's certificate to an
//! allowlist of fingerprints. While a pairing window is open, an unknown peer
//! is admitted to the TLS session and then has to prove knowledge of the PIN
//! before its fingerprint is added; ordinary outbound connections never admit
//! one.

use crate::digest::{sha256, sha256_of};
use crate::names::texts;
use crate::text::{from_chars, same_text};
use vstd::prelude::*;
use vstd::string::*;

verus! {

/* ------------------------------ fingerprints ------------------------------ */

/// The hexadecimal digit for `d`.
pub open spec fn hex_digit(d: int) -> char {
    if d < 10 {
        ('0' as u32 + d) as char
    } else {
        ('a' as u32 + (d - 10)) as char
    }
}

/// Bytes as pairs of hexadecimal digits with colons between them.
pub open spec fn colon_hex(b: Seq<u8>) -> Seq<char>
    decreases b.len(),
{
    if b.len() == 0 {
        Seq::empty()
    } else {
        let pair = seq![hex_digit(b.last() as int / 16), hex_digit(b.last() as int % 16)];
        if b.len() == 1 {
            pair
        } else {
            colon_hex(b.drop_last()).push(':') + pair
        }
    }
}

/// The fingerprint of a certificate.
pub open spec fn fingerprint(cert: Seq<u8>) -> Seq<char> {
    colon_hex(sha256(cert))
}

fn hex_of(d: u8) -> (r: char)
    requires
        d < 16,
    ensures
        r == hex_digit(d as int),
{
    if d < 10 {
        (48 + d) as char
    } else {
        (97 + (d - 10)) as char
    }
}

/// Bytes as pairs of hexadecimal digits with colons between them.
pub fn hex_text(b: &[u8; 32]) -> (r: String)
    ensures
        r@ == colon_hex(b@),
{
    let mut chars: Vec<char> = Vec::new();
    let mut i: usize = 0;
    assert(b@.take(0) =~= Seq::<u8>::empty());
    assert(chars@ =~= colon_hex(b@.take(0)));
    while i < 32
        invariant
            i <= 32,
            chars@ == colon_hex(b@.take(i as int)),
        decreases 32 - i,
    {
        let ghost before = chars@;
        if i > 0 {
            chars.push(':');
        }
        let d: u8 = b[i];
        chars.push(hex_of(d / 16));
        chars.push(hex_of(d % 16));
        proof {
            let t = b@.take(i + 1);
            assert(t.drop_last() =~= b@.take(i as int));
            assert(t.last() == d);
            assert(chars@ =~= colon_hex(t));
        }
        i = i + 1;
    }
    assert(b@.take(32) =~= b@);
    let r = from_chars(&chars, 0, chars.len());
    assert(r@ =~= chars@);
    r
}

/// sha256 fingerprint of a certificate
pub fn generate_fingerprint(cert: &Vec<u8>) -> (r: String)
    ensures
        r@ == fingerprint(cert@),
{
    hex_text(&sha256_of(cert))
}

/* --------------------------------- policy --------------------------------- */

/// What a connection is for.
#[derive(Debug, PartialEq, Eq, Structural, Clone, Copy)]
pub enum Purpose {
    /// an ordinary outbound connection
    Dial,
    /// an outbound connection to pair
    PairDial,
    /// an inbound connection
    Accept,
}

/// Accepts a peer certificate iff its sha256 fingerprint is in the
/// allowlist, or a pairing window is currently open and the connection may
/// be the pairing.
pub struct FingerprintPolicy {
    pub authorized: Vec<String>,
    pub pairing_open: bool,
    pub purpose: Purpose,
}

/// Whether a fingerprint is admitted.
pub open spec fn admits(
    authorized: Seq<Seq<char>>,
    pairing_open: bool,
    purpose: Purpose,
    fp: Seq<char>,
) -> bool {
    authorized.contains(fp) || (pairing_open && purpose != Purpose::Dial)
}

/// Whether a fingerprint is in the allowlist.
pub fn is_authorized(authorized: &Vec<String>, fp: &str) -> (r: bool)
    ensures
        r == texts(authorized@).contains(fp@),
{
    let ghost all = texts(authorized@);
    let mut i: usize = 0;
    while i < authorized.len()
        invariant
            i <= authorized@.len(),
            all == texts(authorized@),
            forall|k: int| 0 <= k < i ==> all[k] != fp@,
        decreases authorized@.len() - i,
    {
        assert(all[i as int] == authorized@[i as int]@);
        if same_text(authorized[i].as_str(), fp) {
            return true;
        }
        i = i + 1;
    }
    assert(all.len() == authorized@.len());
    false
}

impl FingerprintPolicy {
    /// Whether a peer with this fingerprint is admitted.
    pub fn admits(&self, fp: &str) -> (r: bool)
        ensures
            r == admits(texts(self.authorized@), self.pairing_open, self.purpose, fp@),
    {
        is_authorized(&self.authorized, fp) || (self.pairing_open && self.purpose != Purpose::Dial)
    }

    /// Whether a peer with this certificate is admitted; if not, the
    /// fingerprint that was refused.
    pub fn check(&self, end_entity: &Vec<u8>) -> (r: Result<(), String>)
        ensures
            r is Ok <==> admits(
                texts(self.authorized@),
                self.pairing_open,
                self.purpose,
                fingerprint(end_entity@),
            ),
            r is Err ==> r->Err_0@ == fingerprint(end_entity@),
    {
        let fp = generate_fingerprint(end_entity);
        if self.admits(fp.as_str()) {
            Ok(())
        } else {
            Err(fp)
        }
    }
}

/// What becomes of an inbound connection that was admitted.
#[derive(Debug, PartialEq, Eq, Structural, Clone, Copy)]
pub enum Inbound {
    /// a known peer: run the connection
    Serve,
    /// an unknown peer during an open pairing window: run the pairing
    Pair,
    /// drop it
    Drop,
}

/// What becomes of an inbound connection, by whether its peer is pinned and
/// whether a window is open.
pub open spec fn taken_in(pinned: bool, window_open: bool) -> Inbound {
    if pinned {
        Inbound::Serve
    } else if window_open {
        Inbound::Pair
    } else {
        Inbound::Drop
    }
}

/// What becomes of an inbound connection from a peer with this fingerprint,
/// the pairing window being open or not when it came.
pub fn sort_inbound(authorized: &Vec<String>, window_open: bool, fp: &str) -> (r: Inbound)
    ensures
        r == (if texts(authorized@).contains(fp@) {
            Inbound::Serve
        } else if window_open {
            Inbound::Pair
        } else {
            Inbound::Drop
        }),
        r == taken_in(texts(authorized@).contains(fp@), window_open),
{
    if is_authorized(authorized, fp) {
        Inbound::Serve
    } else if window_open {
        Inbound::Pair
    } else {
        Inbound::Drop
    }
}

/* ---------------------------------- laws ---------------------------------- */

/// An ordinary outbound connection admits only pinned peers, even while a
/// pairing window is open.
pub proof fn dials_admit_only_pinned_peers(
    authorized: Seq<Seq<char>>,
    pairing_open: bool,
    fp: Seq<char>,
)
    ensures
        admits(authorized, pairing_open, Purpose::Dial, fp) <==> authorized.contains(fp),
{
}

/// Without a pairing window nobody is admitted who is not pinned.
pub proof fn closed_windows_admit_only_pinned_peers(
    authorized: Seq<Seq<char>>,
    purpose: Purpose,
    fp: Seq<char>,
)
    ensures
        admits(authorized, false, purpose, fp) <==> authorized.contains(fp),
{
}

/// Different digests have different fingerprints.
pub proof fn fingerprints_tell_digests_apart(a: Seq<u8>, b: Seq<u8>)
    requires
        a.len() == b.len(),
        colon_hex(a) == colon_hex(b),
    ensures
        a == b,
    decreases a.len(),
{
    if a.len() > 0 {
        let x = colon_hex(a);
        let y = colon_hex(b);
        hex_length(a);
        hex_length(b);
        let n = x.len() as int;
        assert(x[n - 1] == hex_digit(a.last() as int % 16));
        assert(y[n - 1] == hex_digit(b.last() as int % 16));
        assert(x[n - 2] == hex_digit(a.last() as int / 16));
        assert(y[n - 2] == hex_digit(b.last() as int / 16));
        assert(a.last() == b.last());
        if a.len() > 1 {
            assert(colon_hex(a.drop_last()) =~= x.take(n - 3));
            assert(colon_hex(b.drop_last()) =~= y.take(n - 3));
            fingerprints_tell_digests_apart(a.drop_last(), b.drop_last());
        }
        assert(a =~= a.drop_last().push(a.last()));
        assert(b =~= b.drop_last().push(b.last()));
        assert(a.drop_last() =~= b.drop_last());
    } else {
        assert(a =~= b);
    }
}

proof fn hex_length(b: Seq<u8>)
    ensures
        b.len() == 0 ==> colon_hex(b).len() == 0,
        b.len() > 0 ==> colon_hex(b).len() == 3 * b.len() - 1,
    decreases b.len(),
{
    if b.len() > 1 {
        hex_length(b.drop_last());
    }
}

} // verus!
