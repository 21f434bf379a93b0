//! Peers on the local network, as their advertisements come and go. Used
//! purely to populate the pairing screen; discovery grants no trust.

use crate::event::peers_view;
use crate::ipc::{DiscoveredPeer, Ip, Peer};
use crate::names::texts;
use crate::text::{concat2, from_chars, is_text, same_text, to_chars};
use vstd::prelude::*;
use vstd::string::*;

verus! {

/// How many digits of its fingerprint a device advertises.
pub const FP_DIGITS: usize = 12;

/* ---------------------------------- names ---------------------------------- */

/// Whether a character is a hexadecimal digit.
pub open spec fn is_hex(c: char) -> bool {
    '0' <= c <= '9' || 'a' <= c <= 'f' || 'A' <= c <= 'F'
}

/// The first `n` hexadecimal digits of a text.
pub open spec fn hex_digits(s: Seq<char>, n: nat) -> Seq<char>
    decreases s.len(),
{
    if n == 0 || s.len() == 0 {
        Seq::empty()
    } else if is_hex(s[0]) {
        seq![s[0]] + hex_digits(s.drop_first(), (n - 1) as nat)
    } else {
        hex_digits(s.drop_first(), n)
    }
}

/// The digits of a fingerprint that are advertised, by which a device tells
/// its own advertisement apart.
pub fn fp_prefix(fingerprint: &str) -> (r: String)
    ensures
        r@ == hex_digits(fingerprint@, FP_DIGITS as nat),
{
    let chars = to_chars(fingerprint);
    let ghost all = fingerprint@;
    let mut out: Vec<char> = Vec::new();
    let mut i: usize = 0;
    assert(all.skip(0) =~= all);
    assert(out@ + hex_digits(all, 12) =~= hex_digits(all, 12));
    while i < chars.len() && out.len() < FP_DIGITS
        invariant
            i <= chars@.len(),
            chars@ == all,
            out@.len() <= FP_DIGITS,
            hex_digits(all, FP_DIGITS as nat) == out@ + hex_digits(
                all.skip(i as int),
                (FP_DIGITS - out@.len()) as nat,
            ),
        decreases chars@.len() - i,
    {
        let c = chars[i];
        let ghost rest = all.skip(i as int);
        proof {
            assert(rest[0] == c);
            assert(rest.drop_first() =~= all.skip(i + 1));
        }
        if (c >= '0' && c <= '9') || (c >= 'a' && c <= 'f') || (c >= 'A' && c <= 'F') {
            let ghost before = out@;
            out.push(c);
            assert(before + hex_digits(rest, (FP_DIGITS - before.len()) as nat) =~= out@
                + hex_digits(all.skip(i + 1), (FP_DIGITS - out@.len()) as nat));
        }
        i = i + 1;
    }
    proof {
        let rest = all.skip(i as int);
        assert(hex_digits(rest, (FP_DIGITS - out@.len()) as nat) =~= Seq::<char>::empty());
        assert(out@ + Seq::<char>::empty() =~= out@);
    }
    let r = from_chars(&out, 0, out.len());
    assert(r@ =~= out@);
    r
}

/// A text without `end` at its end, however often it stands there.
pub open spec fn without_end(s: Seq<char>, end: Seq<char>) -> Seq<char>
    decreases s.len(),
{
    if end.len() > 0 && end.is_suffix_of(s) {
        without_end(s.take(s.len() - end.len()), end)
    } else {
        s
    }
}

/// The name that this host advertises: `<hostname>.local.`
pub fn advertised_host(hostname: &str) -> (r: String)
    ensures
        r@ == without_end(hostname@, ".local"@) + ".local."@,
{
    let chars = to_chars(hostname);
    let end = to_chars(".local");
    proof {
        reveal_strlit(".local");
    }
    let ghost all = hostname@;
    let mut n: usize = chars.len();
    assert(all.take(n as int) =~= all);
    while ends_at(&chars, n, &end)
        invariant
            n <= chars@.len(),
            chars@ == all,
            end@ == ".local"@,
            end@.len() == 6,
            without_end(all, end@) == without_end(all.take(n as int), end@),
        decreases n,
    {
        assert(all.take(n as int).take(n - end@.len()) =~= all.take(n - end@.len()));
        n = n - end.len();
    }
    let head = from_chars(&chars, 0, n);
    assert(head@ =~= all.take(n as int));
    concat2(head.as_str(), ".local.")
}

/// Whether the first `n` characters end in `end`.
fn ends_at(chars: &Vec<char>, n: usize, end: &Vec<char>) -> (r: bool)
    requires
        n <= chars@.len(),
    ensures
        r == end@.is_suffix_of(chars@.take(n as int)),
{
    let ghost s = chars@.take(n as int);
    if end.len() > n {
        return false;
    }
    let from: usize = n - end.len();
    let mut i: usize = 0;
    while i < end.len()
        invariant
            i <= end@.len() <= n <= chars@.len(),
            from == n - end@.len(),
            s == chars@.take(n as int),
            forall|k: int| 0 <= k < i ==> end@[k] == chars@[from + k],
        decreases end@.len() - i,
    {
        if end[i] != chars[from + i] {
            assert(s.subrange(s.len() - end@.len(), s.len() as int)[i as int] == chars@[from
                + i as int]);
            return false;
        }
        i = i + 1;
    }
    assert(s.subrange(s.len() - end@.len(), s.len() as int) =~= end@);
    true
}

/// What stands before the first `mark` in a text; all of it where there is
/// none.
pub open spec fn before_mark(s: Seq<char>, mark: Seq<char>) -> Seq<char>
    decreases s.len(),
{
    if s.len() == 0 || mark.is_prefix_of(s) {
        Seq::empty()
    } else {
        seq![s[0]] + before_mark(s.drop_first(), mark)
    }
}

/// Whether `mark` stands in `chars` from `at` on.
fn stands_at(chars: &Vec<char>, at: usize, mark: &Vec<char>) -> (r: bool)
    requires
        at <= chars@.len(),
    ensures
        r == mark@.is_prefix_of(chars@.skip(at as int)),
{
    let ghost s = chars@.skip(at as int);
    if mark.len() > chars.len() - at {
        return false;
    }
    let mut i: usize = 0;
    while i < mark.len()
        invariant
            i <= mark@.len(),
            at + mark@.len() <= chars.len(),
            s == chars@.skip(at as int),
            forall|k: int| 0 <= k < i ==> mark@[k] == chars@[at + k],
        decreases mark@.len() - i,
    {
        if mark[i] != chars[at + i] {
            assert(s.subrange(0, mark@.len() as int)[i as int] == chars@[at + i as int]);
            return false;
        }
        i = i + 1;
    }
    assert(s.subrange(0, mark@.len() as int) =~= mark@);
    true
}

/// The device name in the full name of an advertised service.
pub fn instance_name(fullname: &str) -> (r: String)
    ensures
        r@ == before_mark(fullname@, "._vylo-share._tcp.local."@),
{
    let chars = to_chars(fullname);
    let mark = to_chars("._vylo-share._tcp.local.");
    let ghost all = fullname@;
    let mut i: usize = 0;
    assert(all.skip(0) =~= all);
    assert(all.take(0) + before_mark(all, mark@) =~= before_mark(all, mark@));
    while i < chars.len() && !stands_at(&chars, i, &mark)
        invariant
            i <= chars@.len(),
            chars@ == all,
            mark@ == "._vylo-share._tcp.local."@,
            before_mark(all, mark@) == all.take(i as int) + before_mark(
                all.skip(i as int),
                mark@,
            ),
        decreases chars@.len() - i,
    {
        proof {
            let rest = all.skip(i as int);
            assert(rest.drop_first() =~= all.skip(i + 1));
            assert(all.take(i as int) + before_mark(rest, mark@) =~= all.take(i + 1) + before_mark(
                all.skip(i + 1),
                mark@,
            ));
        }
        i = i + 1;
    }
    proof {
        let rest = all.skip(i as int);
        assert(before_mark(rest, mark@) =~= Seq::<char>::empty());
        assert(all.take(i as int) + Seq::<char>::empty() =~= all.take(i as int));
    }
    let r = from_chars(&chars, 0, i);
    assert(r@ =~= all.take(i as int));
    r
}

/* ---------------------------------- peers ---------------------------------- */

/// The devices that advertise themselves, by the full name of their service.
pub struct Peers {
    /// what this device advertises of its own fingerprint
    pub own: String,
    pub names: Vec<String>,
    pub peers: Vec<DiscoveredPeer>,
}

/// What is known of the devices that advertise themselves.
#[verifier::ext_equal]
pub struct Known {
    pub own: Seq<char>,
    pub names: Seq<Seq<char>>,
    pub peers: Seq<Peer>,
}

impl View for Peers {
    type V = Known;

    open spec fn view(&self) -> Known {
        Known { own: self.own@, names: texts(self.names@), peers: peers_view(self.peers@) }
    }
}

/// Where a name stands, or the length.
pub open spec fn place_of(names: Seq<Seq<char>>, name: Seq<char>) -> int
    decreases names.len(),
{
    if names.len() == 0 || names[0] == name {
        0
    } else {
        1 + place_of(names.drop_first(), name)
    }
}

impl Known {
    /// Each name has its device.
    pub open spec fn wf(self) -> bool {
        self.names.len() == self.peers.len()
    }

    /// An advertisement was seen. Our own is skipped; a device that was
    /// known is replaced.
    pub open spec fn on_resolved(self, fp: Option<Seq<char>>, fullname: Seq<char>, addrs: Seq<Ip>, port: u16) -> Known {
        let at = place_of(self.names, fullname);
        let peer = Peer {
            name: before_mark(fullname, "._vylo-share._tcp.local."@),
            addrs,
            port,
        };
        if fp == Some(self.own) {
            self
        } else if at < self.names.len() {
            Known { peers: self.peers.update(at, peer), ..self }
        } else {
            Known { names: self.names.push(fullname), peers: self.peers.push(peer), ..self }
        }
    }

    /// An advertisement is gone.
    pub open spec fn on_removed(self, fullname: Seq<char>) -> Known {
        let at = place_of(self.names, fullname);
        if at < self.names.len() {
            Known { names: self.names.remove(at), peers: self.peers.remove(at), ..self }
        } else {
            self
        }
    }
}

proof fn place_is(names: Seq<Seq<char>>, name: Seq<char>, at: int)
    requires
        0 <= at <= names.len(),
        at < names.len() ==> names[at] == name,
        forall|k: int| 0 <= k < at ==> names[k] != name,
    ensures
        place_of(names, name) == at,
    decreases at,
{
    if at > 0 {
        assert(names[0] != name);
        let rest = names.drop_first();
        assert forall|k: int| 0 <= k < at - 1 implies rest[k] != name by {
            assert(rest[k] == names[k + 1]);
        }
        place_is(rest, name, at - 1);
    }
}

/// A copy of a list of devices.
fn copy_peers(v: &Vec<DiscoveredPeer>) -> (r: Vec<DiscoveredPeer>)
    ensures
        peers_view(r@) == peers_view(v@),
{
    let mut r: Vec<DiscoveredPeer> = Vec::new();
    let mut i: usize = 0;
    while i < v.len()
        invariant
            i <= v@.len(),
            r@.len() == i,
            forall|k: int| 0 <= k < i ==> r@[k]@ == v@[k]@,
        decreases v@.len() - i,
    {
        let addrs = copy_addrs(&v[i].addrs);
        r.push(DiscoveredPeer { name: v[i].name.clone(), addrs, port: v[i].port });
        i = i + 1;
    }
    assert(peers_view(r@) =~= peers_view(v@));
    r
}

/// A copy of a list of addresses.
pub fn copy_addrs(v: &Vec<Ip>) -> (r: Vec<Ip>)
    ensures
        r@ == v@,
{
    let mut r: Vec<Ip> = Vec::new();
    let mut i: usize = 0;
    while i < v.len()
        invariant
            i <= v@.len(),
            r@ == v@.take(i as int),
        decreases v@.len() - i,
    {
        r.push(v[i]);
        i = i + 1;
        assert(v@.take(i as int) =~= v@.take(i - 1).push(v@[i - 1]));
    }
    assert(v@.take(i as int) =~= v@);
    r
}

impl Peers {
    /// No device is known yet; `fingerprint` is this device's own.
    pub fn new(fingerprint: &str) -> (r: Peers)
        ensures
            r@ == (Known {
                own: hex_digits(fingerprint@, FP_DIGITS as nat),
                names: Seq::empty(),
                peers: Seq::empty(),
            }),
            r@.wf(),
    {
        let r = Peers { own: fp_prefix(fingerprint), names: Vec::new(), peers: Vec::new() };
        assert(r@.names =~= Seq::<Seq<char>>::empty());
        assert(r@.peers =~= Seq::<Peer>::empty());
        r
    }

    fn find(&self, fullname: &str) -> (r: usize)
        ensures
            r == place_of(self@.names, fullname@),
            r <= self.names@.len(),
    {
        let ghost all = self@.names;
        let mut i: usize = 0;
        while i < self.names.len() && !same_text(self.names[i].as_str(), fullname)
            invariant
                i <= self.names@.len(),
                all == texts(self.names@),
                forall|k: int| 0 <= k < i ==> all[k] != fullname@,
            decreases self.names@.len() - i,
        {
            assert(all[i as int] == self.names@[i as int]@);
            i = i + 1;
        }
        proof {
            assert(all.len() == self.names@.len());
            if i < all.len() {
                assert(all[i as int] == self.names@[i as int]@);
            }
            place_is(all, fullname@, i as int);
        }
        i
    }

    /// An advertisement was seen: the devices known now, unless it is our
    /// own.
    pub fn resolved(&mut self, fp: Option<String>, fullname: &str, addrs: Vec<Ip>, port: u16) -> (r:
        Option<Vec<DiscoveredPeer>>)
        requires
            old(self)@.wf(),
        ensures
            final(self)@ == old(self)@.on_resolved(
                crate::ipc::opt_text(fp),
                fullname@,
                addrs@,
                port,
            ),
            r is Some <==> crate::ipc::opt_text(fp) != Some(old(self)@.own),
            r is Some ==> peers_view(r->0@) == final(self)@.peers,
            final(self)@.wf(),
    {
        // skip our own advertisement
        if is_text(&fp, self.own.as_str()) {
            return None;
        }
        let name = instance_name(fullname);
        let peer = DiscoveredPeer { name, addrs, port };
        let ghost m = peer@;
        let ghost names0 = self.names@;
        let ghost peers0 = self.peers@;
        let i: usize = self.find(fullname);
        proof {
            assert(self@.names.len() == self.names@.len());
            assert(self@.peers.len() == self.peers@.len());
        }
        if i < self.names.len() {
            self.peers.set(i, peer);
            assert(peers_view(self.peers@) =~= peers_view(peers0).update(i as int, m));
        } else {
            self.names.push(fullname.to_owned());
            self.peers.push(peer);
            assert(texts(self.names@) =~= texts(names0).push(fullname@));
            assert(peers_view(self.peers@) =~= peers_view(peers0).push(m));
        }
        Some(copy_peers(&self.peers))
    }

    /// An advertisement is gone: the devices known now, if that changes
    /// anything.
    pub fn removed(&mut self, fullname: &str) -> (r: Option<Vec<DiscoveredPeer>>)
        requires
            old(self)@.wf(),
        ensures
            final(self)@ == old(self)@.on_removed(fullname@),
            r is Some <==> old(self)@.names.contains(fullname@),
            r is Some ==> peers_view(r->0@) == final(self)@.peers,
            final(self)@.wf(),
    {
        let ghost names0 = self.names@;
        let ghost peers0 = self.peers@;
        let i: usize = self.find(fullname);
        proof {
            assert(self@.names.len() == self.names@.len());
            assert(self@.peers.len() == self.peers@.len());
            place_finds(self@.names, fullname@);
        }
        if i < self.names.len() {
            let _name = self.names.remove(i);
            let _peer = self.peers.remove(i);
            assert(texts(self.names@) =~= texts(names0).remove(i as int));
            assert(peers_view(self.peers@) =~= peers_view(peers0).remove(i as int));
            Some(copy_peers(&self.peers))
        } else {
            None
        }
    }
}

proof fn place_finds(names: Seq<Seq<char>>, name: Seq<char>)
    ensures
        0 <= place_of(names, name) <= names.len(),
        place_of(names, name) < names.len() <==> names.contains(name),
        place_of(names, name) < names.len() ==> names[place_of(names, name)] == name,
    decreases names.len(),
{
    if names.len() > 0 && names[0] != name {
        place_finds(names.drop_first(), name);
        if names.contains(name) {
            let k = choose|k: int| 0 <= k < names.len() && names[k] == name;
            assert(names.drop_first()[k - 1] == name);
        }
        if names.drop_first().contains(name) {
            let k = choose|k: int| 0 <= k < names.drop_first().len() && names.drop_first()[k]
                == name;
            assert(names[k + 1] == name);
        }
    }
}

/* ---------------------------------- laws ---------------------------------- */

/// A device is never listed as its own peer.
pub proof fn own_advertisements_are_skipped(k: Known, fullname: Seq<char>, addrs: Seq<Ip>, port: u16)
    ensures
        k.on_resolved(Some(k.own), fullname, addrs, port) == k,
{
}

/// A device that went away is no longer listed, if it was listed once.
pub proof fn gone_devices_are_dropped(k: Known, fullname: Seq<char>)
    requires
        k.names.no_duplicates(),
    ensures
        !k.on_removed(fullname).names.contains(fullname),
        k.on_removed(fullname).names.no_duplicates(),
{
    place_finds(k.names, fullname);
    let at = place_of(k.names, fullname);
    if at < k.names.len() {
        let r = k.names.remove(at);
        assert forall|i: int| 0 <= i < r.len() implies r[i] != fullname by {
            let j = if i < at {
                i
            } else {
                i + 1
            };
            assert(r[i] == k.names[j]);
        }
        assert forall|i: int, j: int| 0 <= i < r.len() && 0 <= j < r.len() && i != j implies r[i]
            != r[j] by {
            let a = if i < at {
                i
            } else {
                i + 1
            };
            let b = if j < at {
                j
            } else {
                j + 1
            };
            assert(r[i] == k.names[a] && r[j] == k.names[b]);
        }
    }
}

/// A device that is seen is listed once, however often it is seen.
pub proof fn seen_devices_are_listed_once(
    k: Known,
    fp: Option<Seq<char>>,
    fullname: Seq<char>,
    addrs: Seq<Ip>,
    port: u16,
)
    requires
        k.names.no_duplicates(),
        fp != Some(k.own),
    ensures
        k.on_resolved(fp, fullname, addrs, port).names.contains(fullname),
        k.on_resolved(fp, fullname, addrs, port).names.no_duplicates(),
{
    place_finds(k.names, fullname);
    let r = k.on_resolved(fp, fullname, addrs, port);
    if !k.names.contains(fullname) {
        assert(r.names[k.names.len() as int] == fullname);
    }
}

} // verus!
