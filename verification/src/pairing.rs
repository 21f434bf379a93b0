//! PIN pairing over an (as yet untrusted) TLS connection.
//!
//! The machine that shows the PIN opens a pairing window and waits; the
//! machine where the user types the PIN connects and starts the exchange.
//! Both run SPAKE2 with the PIN as password, yielding a shared key only if
//! the PINs match. Each side then proves knowledge of that key with an HMAC
//! over keying material exported from the TLS session itself, so the proof
//! cannot be relayed between two sessions by a machine-in-the-middle. Once
//! both MACs verify, each side pins the peer certificate it saw during the
//! TLS handshake.

use crate::digest::{digest_bytes, hmac, hmac_sha256, same_digest};
use crate::proto::{Msg, SyncMessage};
use crate::text::{concat2, digit_char, from_chars};
use rand::{Rng, SeedableRng};
use vstd::prelude::*;
use vstd::string::*;
use vstd::utf8::encode_utf8;

verus! {

/* ------------------------------ PIN and MACs ------------------------------ */

/// How many PINs there are.
pub const PINS: u32 = 1_000_000;

/// `rand::Rng::gen_range`: a random number below `n`.
#[verifier::external_body]
fn random_below(n: u32) -> (r: u32)
    requires
        n > 0,
    ensures
        r < n,
{
    rand::thread_rng().gen_range(0..n)
}

/// `rand::Rng::gen`: 32 random bytes.
#[verifier::external_body]
fn random_bytes() -> (r: [u8; 32]) {
    rand::thread_rng().gen()
}

/// The six digits of a number below one million.
pub open spec fn pin_of(n: int) -> Seq<char> {
    seq![
        digit_char(n / 100_000 % 10),
        digit_char(n / 10_000 % 10),
        digit_char(n / 1000 % 10),
        digit_char(n / 100 % 10),
        digit_char(n / 10 % 10),
        digit_char(n % 10),
    ]
}

/// A number as a PIN: six digits, with leading zeros.
pub fn pin_text(n: u32) -> (r: String)
    ensures
        r@ == pin_of(n as int),
{
    let mut chars: Vec<char> = Vec::new();
    chars.push(crate::text::digit((n / 100_000 % 10) as u64));
    chars.push(crate::text::digit((n / 10_000 % 10) as u64));
    chars.push(crate::text::digit((n / 1000 % 10) as u64));
    chars.push(crate::text::digit((n / 100 % 10) as u64));
    chars.push(crate::text::digit((n / 10 % 10) as u64));
    chars.push(crate::text::digit((n % 10) as u64));
    let r = from_chars(&chars, 0, chars.len());
    assert(r@ =~= pin_of(n as int));
    r
}

/// A fresh PIN: six random digits.
pub fn generate_pin() -> (r: String)
    ensures
        exists|n: int| 0 <= n < PINS && r@ == #[trigger] pin_of(n),
{
    let n: u32 = random_below(PINS);
    pin_text(n)
}

/// Fresh randomness for one exchange.
pub fn generate_seed() -> (r: [u8; 32]) {
    random_bytes()
}

/// What both sides name the exchange.
pub open spec fn identity() -> Seq<u8> {
    encode_utf8("vylo-mouse-share pairing"@)
}

/// What the dialing side's proof is made over, before the session.
pub open spec fn label_a() -> Seq<u8> {
    encode_utf8("vylo pairing confirm A"@)
}

/// What the answering side's proof is made over, before the session.
pub open spec fn label_b() -> Seq<u8> {
    encode_utf8("vylo pairing confirm B"@)
}

/// The bytes of a text.
fn bytes_of(s: &str) -> (r: Vec<u8>)
    ensures
        r@ == encode_utf8(s@),
{
    let b = s.as_bytes();
    let mut r: Vec<u8> = Vec::new();
    let mut i: usize = 0;
    while i < b.len()
        invariant
            i <= b@.len(),
            b@ == encode_utf8(s@),
            r@ == b@.take(i as int),
        decreases b@.len() - i,
    {
        r.push(b[i]);
        i = i + 1;
        assert(b@.take(i as int) =~= b@.take(i - 1).push(b@[i - 1]));
    }
    assert(b@.take(i as int) =~= b@);
    r
}

/// The proof that a side knows `key`, in this session.
pub open spec fn proof_of(key: Seq<u8>, label: Seq<u8>, exporter: Seq<u8>) -> Seq<u8> {
    hmac_sha256(key, label + exporter)
}

fn confirm_mac(key: &Vec<u8>, label: &str, exporter: &[u8; 32]) -> (r: [u8; 32])
    ensures
        r@ == proof_of(key@, encode_utf8(label@), exporter@),
{
    let mut data = bytes_of(label);
    let mut tail = digest_bytes(exporter);
    data.append(&mut tail);
    hmac(key, &data)
}

/// Two proofs pass for the same: keyed with either, HMAC gives one result.
pub open spec fn passes(expected: Seq<u8>, received: Seq<u8>) -> bool {
    hmac_sha256(expected, encode_utf8("eq"@)) == hmac_sha256(received, encode_utf8("eq"@))
}

/// Whether a proof passes. What is compared are not the proofs but HMACs
/// keyed with them, so that the time it takes tells nothing of the proofs.
pub fn mac_matches(expected: &[u8; 32], received: &[u8; 32]) -> (r: bool)
    ensures
        r == passes(expected@, received@),
{
    let eq = bytes_of("eq");
    let a = hmac(&digest_bytes(expected), &eq);
    let b = hmac(&digest_bytes(received), &eq);
    same_digest(&a, &b)
}

/* --------------------------------- SPAKE2 --------------------------------- */

/// The message with which a side opens SPAKE2, for a PIN, an identity and
/// the side's randomness.
pub uninterp spec fn spake_message(pin: Seq<u8>, id: Seq<u8>, seed: Seq<u8>) -> Seq<u8>;

/// The key at which a side arrives from the other side's message, if it is
/// one.
pub uninterp spec fn spake_key(
    pin: Seq<u8>,
    id: Seq<u8>,
    seed: Seq<u8>,
    msg: Seq<u8>,
) -> Option<Seq<u8>>;

/// `spake2::Spake2::<Ed25519Group>::start_symmetric_with_rng`: the outbound
/// message, 33 bytes, the first of which is `S`. The randomness is a
/// generator of the `rand` crate started from `seed`.
#[verifier::external_body]
fn spake_start(pin: &Vec<u8>, id: &Vec<u8>, seed: &[u8; 32]) -> (r: Vec<u8>)
    ensures
        r@ == spake_message(pin@, id@, seed@),
        r@.len() == 33,
        r@[0] == 0x53,
{
    let (_, msg) = spake2::Spake2::<spake2::Ed25519Group>::start_symmetric_with_rng(
        &spake2::Password::new(pin),
        &spake2::Identity::new(id),
        rand::rngs::StdRng::from_seed(*seed),
    );
    msg
}

/// `spake2::Spake2::finish`, on the side that `seed` opened: the shared key,
/// 32 bytes, or nothing where `msg` is no message of the other side: it must
/// have 33 bytes, the first of which is `S`. Two sides that were opened with
/// the same PIN and identity arrive at the same key from each other's
/// messages.
#[verifier::external_body]
fn spake_finish(pin: &Vec<u8>, id: &Vec<u8>, seed: &[u8; 32], msg: &Vec<u8>) -> (r: Option<Vec<u8>>)
    ensures
        r is Some <==> spake_key(pin@, id@, seed@, msg@) is Some,
        r is Some ==> r->0@ == spake_key(pin@, id@, seed@, msg@)->0,
        r is Some ==> r->0@.len() == 32 && msg@.len() == 33 && msg@[0] == 0x53,
        forall|other: Seq<u8>|
            other.len() == 32 && msg@ == #[trigger] spake_message(pin@, id@, other) ==> r is Some
                && spake_key(
                pin@,
                id@,
                other,
                spake_message(pin@, id@, seed@),
            ) == Some(r->0@),
{
    let (side, _) = spake2::Spake2::<spake2::Ed25519Group>::start_symmetric_with_rng(
        &spake2::Password::new(pin),
        &spake2::Identity::new(id),
        rand::rngs::StdRng::from_seed(*seed),
    );
    side.finish(msg).ok()
}

/* ------------------------------- the exchange ------------------------------- */

/// Why a pairing failed.
#[derive(Debug)]
pub enum PairingError {
    /// the connection failed, as the host words it
    Proto(String),
    UnexpectedMessage,
    WrongPin,
    PeerRejected,
}

/// What a [`PairingError`] says.
#[verifier::ext_equal]
pub enum Why {
    Proto(Seq<char>),
    UnexpectedMessage,
    WrongPin,
    PeerRejected,
}

impl View for PairingError {
    type V = Why;

    open spec fn view(&self) -> Why {
        match *self {
            PairingError::Proto(e) => Why::Proto(e@),
            PairingError::UnexpectedMessage => Why::UnexpectedMessage,
            PairingError::WrongPin => Why::WrongPin,
            PairingError::PeerRejected => Why::PeerRejected,
        }
    }
}

/// How a failed pairing is worded.
pub open spec fn worded(why: Why) -> Seq<char> {
    match why {
        Why::Proto(e) => "connection error during pairing: "@ + e,
        Why::UnexpectedMessage => "peer sent an unexpected message"@,
        Why::WrongPin => "wrong PIN"@,
        Why::PeerRejected => "pairing rejected by peer (wrong PIN?)"@,
    }
}

impl PairingError {
    /// What went wrong, in words.
    pub fn message(&self) -> (r: String)
        ensures
            r@ == worded(self@),
    {
        match self {
            PairingError::Proto(e) => concat2("connection error during pairing: ", e.as_str()),
            PairingError::UnexpectedMessage => "peer sent an unexpected message".to_owned(),
            PairingError::WrongPin => "wrong PIN".to_owned(),
            PairingError::PeerRejected => "pairing rejected by peer (wrong PIN?)".to_owned(),
        }
    }
}

/// What a side does next: what it sends first, if anything, and how the
/// pairing ended, if it has. An end counts only once what is to be sent has
/// gone; where that fails, the pairing failed on its connection.
#[derive(Debug)]
pub struct PairStep {
    pub send: Option<SyncMessage>,
    /// the peer's device name, or what went wrong
    pub outcome: Option<Result<String, PairingError>>,
}

/// What a [`PairStep`] is.
#[verifier::ext_equal]
pub struct PairMove {
    pub send: Option<Msg>,
    pub outcome: Option<Result<Seq<char>, Why>>,
}

impl View for PairStep {
    type V = PairMove;

    open spec fn view(&self) -> PairMove {
        PairMove {
            send: match self.send {
                Some(m) => Some(m@),
                None => None,
            },
            outcome: match self.outcome {
                Some(Ok(name)) => Some(Ok(name@)),
                Some(Err(e)) => Some(Err(e@)),
                None => None,
            },
        }
    }
}

/// How far a side has come.
pub enum PairStage {
    /// the other side's SPAKE2 message is to come
    Greeting,
    /// the other side's proof is to come
    Proving { key: Vec<u8>, peer_name: String },
    Over,
}

/// How far a side is known to have come.
#[verifier::ext_equal]
pub enum Progressed {
    Greeting,
    Proving { key: Seq<u8>, peer_name: Seq<char> },
    Over,
}

impl View for PairStage {
    type V = Progressed;

    open spec fn view(&self) -> Progressed {
        match *self {
            PairStage::Greeting => Progressed::Greeting,
            PairStage::Proving { key, peer_name } => Progressed::Proving {
                key: key@,
                peer_name: peer_name@,
            },
            PairStage::Over => Progressed::Over,
        }
    }
}

/// One side of a pairing.
pub struct PairSide {
    pub pin: String,
    pub device_name: String,
    /// keying material exported from the TLS session
    pub exporter: [u8; 32],
    pub seed: [u8; 32],
    pub stage: PairStage,
}

/// What is known of one side of a pairing.
#[verifier::ext_equal]
pub struct Side {
    pub pin: Seq<char>,
    pub device_name: Seq<char>,
    pub exporter: Seq<u8>,
    pub seed: Seq<u8>,
    pub stage: Progressed,
}

impl View for PairSide {
    type V = Side;

    open spec fn view(&self) -> Side {
        Side {
            pin: self.pin@,
            device_name: self.device_name@,
            exporter: self.exporter@,
            seed: self.seed@,
            stage: self.stage@,
        }
    }
}

/// Nothing is sent, and the pairing failed.
pub open spec fn fails(why: Why) -> PairMove {
    PairMove { send: None, outcome: Some(Err(why)) }
}

impl Side {
    pub open spec fn at_stage(self, stage: Progressed) -> Side {
        Side { stage, ..self }
    }

    /// The SPAKE2 message of this side.
    pub open spec fn opening(self) -> Seq<u8> {
        spake_message(encode_utf8(self.pin), identity(), self.seed)
    }

    /// The key that this side makes of the other side's message.
    pub open spec fn key_from(self, msg: Seq<u8>) -> Option<Seq<u8>> {
        spake_key(encode_utf8(self.pin), identity(), self.seed, msg)
    }

    /// If `msg` opens a side with the same PIN, this side makes a key of it,
    /// and the other side makes the same key of this side's message.
    pub open spec fn agrees_on(self, msg: Seq<u8>) -> bool {
        forall|other: Seq<u8>|
            other.len() == 32 && msg == #[trigger] spake_message(
                encode_utf8(self.pin),
                identity(),
                other,
            ) ==> self.key_from(msg) is Some && spake_key(
                encode_utf8(self.pin),
                identity(),
                other,
                self.opening(),
            ) == self.key_from(msg)
    }

    /* ---- the side that dialed after the user typed the PIN ---- */

    /// The dialing side has its key, or could not make one.
    pub open spec fn dialer_keyed(self, key: Option<Seq<u8>>, peer_name: Seq<char>) -> (
        Side,
        PairMove,
    ) {
        match key {
            None => (self.at_stage(Progressed::Over), fails(Why::WrongPin)),
            Some(k) => (
                self.at_stage(Progressed::Proving { key: k, peer_name }),
                PairMove {
                    send: Some(Msg::PairConfirmA { mac: proof_of(k, label_a(), self.exporter) }),
                    outcome: None,
                },
            ),
        }
    }

    /// The dialing side has checked the other side's proof.
    pub open spec fn dialer_judged(self, good: bool) -> (Side, PairMove) {
        (
            self.at_stage(Progressed::Over),
            if good {
                PairMove { send: None, outcome: Some(Ok(self.stage->peer_name)) }
            } else {
                fails(Why::WrongPin)
            },
        )
    }

    /// What a message does to the dialing side.
    pub open spec fn dialer_on(self, msg: Msg) -> (Side, PairMove) {
        match self.stage {
            Progressed::Greeting => match msg {
                Msg::PairResponse { spake_msg, name } => self.dialer_keyed(
                    self.key_from(spake_msg),
                    name,
                ),
                _ => (self.at_stage(Progressed::Over), fails(Why::UnexpectedMessage)),
            },
            Progressed::Proving { key, .. } => match msg {
                Msg::PairConfirmB { mac } => self.dialer_judged(
                    passes(proof_of(key, label_b(), self.exporter), mac),
                ),
                _ => (self.at_stage(Progressed::Over), fails(Why::PeerRejected)),
            },
            Progressed::Over => (self, fails(Why::UnexpectedMessage)),
        }
    }

    /* ---- the side that shows the PIN and accepted the connection ---- */

    /// The answering side has its key, or could not make one; its own
    /// message goes out either way.
    pub open spec fn answerer_keyed(self, key: Option<Seq<u8>>, peer_name: Seq<char>) -> (
        Side,
        PairMove,
    ) {
        let reply = Some(
            Msg::PairResponse { spake_msg: self.opening(), name: self.device_name },
        );
        match key {
            None => (
                self.at_stage(Progressed::Over),
                PairMove { send: reply, outcome: Some(Err(Why::WrongPin)) },
            ),
            Some(k) => (
                self.at_stage(Progressed::Proving { key: k, peer_name }),
                PairMove { send: reply, outcome: None },
            ),
        }
    }

    /// The answering side has checked the other side's proof.
    pub open spec fn answerer_judged(self, good: bool) -> (Side, PairMove) {
        (
            self.at_stage(Progressed::Over),
            if good {
                PairMove {
                    send: Some(
                        Msg::PairConfirmB {
                            mac: proof_of(self.stage->key, label_b(), self.exporter),
                        },
                    ),
                    outcome: Some(Ok(self.stage->peer_name)),
                }
            } else {
                fails(Why::WrongPin)
            },
        )
    }

    /// What a message does to the answering side.
    pub open spec fn answerer_on(self, msg: Msg) -> (Side, PairMove) {
        match self.stage {
            Progressed::Greeting => match msg {
                Msg::PairStart { spake_msg, name } => self.answerer_keyed(
                    self.key_from(spake_msg),
                    name,
                ),
                _ => (self.at_stage(Progressed::Over), fails(Why::UnexpectedMessage)),
            },
            Progressed::Proving { key, .. } => match msg {
                Msg::PairConfirmA { mac } => self.answerer_judged(
                    passes(proof_of(key, label_a(), self.exporter), mac),
                ),
                _ => (self.at_stage(Progressed::Over), fails(Why::UnexpectedMessage)),
            },
            Progressed::Over => (self, fails(Why::UnexpectedMessage)),
        }
    }
}

impl PairSide {
    pub fn new(pin: String, device_name: String, exporter: [u8; 32], seed: [u8; 32]) -> (r:
        PairSide)
        ensures
            r@ == (Side {
                pin: pin@,
                device_name: device_name@,
                exporter: exporter@,
                seed: seed@,
                stage: Progressed::Greeting,
            }),
    {
        PairSide { pin, device_name, exporter, seed, stage: PairStage::Greeting }
    }

    fn opening(&self) -> (r: Vec<u8>)
        ensures
            r@ == self@.opening(),
    {
        spake_start(
            &bytes_of(self.pin.as_str()),
            &bytes_of("vylo-mouse-share pairing"),
            &self.seed,
        )
    }

    fn key_from(&self, msg: &Vec<u8>) -> (r: Option<Vec<u8>>)
        ensures
            opt_bytes(r) == self@.key_from(msg@),
            self@.agrees_on(msg@),
    {
        spake_finish(
            &bytes_of(self.pin.as_str()),
            &bytes_of("vylo-mouse-share pairing"),
            &self.seed,
            msg,
        )
    }

    fn fail(&mut self, why: PairingError) -> (r: PairStep)
        ensures
            final(self)@ == old(self)@.at_stage(Progressed::Over),
            r@ == fails(why@),
    {
        self.stage = PairStage::Over;
        PairStep { send: None, outcome: Some(Err(why)) }
    }

    /// Take the key and the peer's name out, and end.
    fn end(&mut self) -> (r: (Vec<u8>, String))
        requires
            old(self)@.stage is Proving,
        ensures
            (r.0@, r.1@) == (old(self)@.stage->key, old(self)@.stage->peer_name),
            final(self)@ == old(self)@.at_stage(Progressed::Over),
    {
        let mut stage = PairStage::Over;
        std::mem::swap(&mut stage, &mut self.stage);
        match stage {
            PairStage::Proving { key, peer_name } => (key, peer_name),
            _ => (Vec::new(), String::new()),
        }
    }

    /// What the side that dialed says first.
    pub fn start(&self) -> (r: SyncMessage)
        ensures
            r@ == (Msg::PairStart { spake_msg: self@.opening(), name: self@.device_name }),
    {
        SyncMessage::PairStart { spake_msg: self.opening(), name: self.device_name.clone() }
    }

    /// The dialing side has its key, or could not make one.
    pub fn dialer_keyed(&mut self, key: Option<Vec<u8>>, peer_name: String) -> (r: PairStep)
        ensures
            (final(self)@, r@) == old(self)@.dialer_keyed(opt_bytes(key), peer_name@),
    {
        match key {
            None => self.fail(PairingError::WrongPin),
            Some(k) => {
                let mac = confirm_mac(&k, "vylo pairing confirm A", &self.exporter);
                self.stage = PairStage::Proving { key: k, peer_name };
                PairStep { send: Some(SyncMessage::PairConfirmA { mac }), outcome: None }
            },
        }
    }

    /// The dialing side has checked the other side's proof.
    pub fn dialer_judged(&mut self, good: bool) -> (r: PairStep)
        requires
            old(self)@.stage is Proving,
        ensures
            (final(self)@, r@) == old(self)@.dialer_judged(good),
    {
        let (_key, peer_name) = self.end();
        if good {
            PairStep { send: None, outcome: Some(Ok(peer_name)) }
        } else {
            PairStep { send: None, outcome: Some(Err(PairingError::WrongPin)) }
        }
    }

    /// What a message does to the side that dialed.
    pub fn run_initiator(&mut self, msg: SyncMessage) -> (r: PairStep)
        ensures
            (final(self)@, r@) == old(self)@.dialer_on(msg@),
            old(self)@.stage is Greeting && msg is PairResponse ==> old(self)@.agrees_on(
                msg@->PairResponse_spake_msg,
            ),
    {
        match &self.stage {
            PairStage::Greeting => match msg {
                SyncMessage::PairResponse { spake_msg, name } => {
                    let key = self.key_from(&spake_msg);
                    self.dialer_keyed(key, name)
                },
                _ => self.fail(PairingError::UnexpectedMessage),
            },
            PairStage::Proving { key, peer_name: _ } => match msg {
                SyncMessage::PairConfirmB { mac } => {
                    let expected = confirm_mac(key, "vylo pairing confirm B", &self.exporter);
                    self.dialer_judged(mac_matches(&expected, &mac))
                },
                _ => self.fail(PairingError::PeerRejected),
            },
            PairStage::Over => PairStep {
                send: None,
                outcome: Some(Err(PairingError::UnexpectedMessage)),
            },
        }
    }

    /// The answering side has its key, or could not make one.
    pub fn answerer_keyed(&mut self, key: Option<Vec<u8>>, peer_name: String) -> (r: PairStep)
        ensures
            (final(self)@, r@) == old(self)@.answerer_keyed(opt_bytes(key), peer_name@),
    {
        let reply = SyncMessage::PairResponse {
            spake_msg: self.opening(),
            name: self.device_name.clone(),
        };
        match key {
            None => {
                self.stage = PairStage::Over;
                PairStep { send: Some(reply), outcome: Some(Err(PairingError::WrongPin)) }
            },
            Some(k) => {
                self.stage = PairStage::Proving { key: k, peer_name };
                PairStep { send: Some(reply), outcome: None }
            },
        }
    }

    /// The answering side has checked the other side's proof.
    pub fn answerer_judged(&mut self, good: bool) -> (r: PairStep)
        requires
            old(self)@.stage is Proving,
        ensures
            (final(self)@, r@) == old(self)@.answerer_judged(good),
    {
        let (key, peer_name) = self.end();
        if good {
            let mac = confirm_mac(&key, "vylo pairing confirm B", &self.exporter);
            PairStep {
                send: Some(SyncMessage::PairConfirmB { mac }),
                outcome: Some(Ok(peer_name)),
            }
        } else {
            PairStep { send: None, outcome: Some(Err(PairingError::WrongPin)) }
        }
    }

    /// What a message does to the side that shows the PIN.
    pub fn run_responder(&mut self, msg: SyncMessage) -> (r: PairStep)
        ensures
            (final(self)@, r@) == old(self)@.answerer_on(msg@),
            old(self)@.stage is Greeting && msg is PairStart ==> old(self)@.agrees_on(
                msg@->PairStart_spake_msg,
            ),
    {
        match &self.stage {
            PairStage::Greeting => match msg {
                SyncMessage::PairStart { spake_msg, name } => {
                    let key = self.key_from(&spake_msg);
                    self.answerer_keyed(key, name)
                },
                _ => self.fail(PairingError::UnexpectedMessage),
            },
            PairStage::Proving { key, peer_name: _ } => match msg {
                SyncMessage::PairConfirmA { mac } => {
                    let expected = confirm_mac(key, "vylo pairing confirm A", &self.exporter);
                    self.answerer_judged(mac_matches(&expected, &mac))
                },
                _ => self.fail(PairingError::UnexpectedMessage),
            },
            PairStage::Over => PairStep {
                send: None,
                outcome: Some(Err(PairingError::UnexpectedMessage)),
            },
        }
    }
}

/// How a pairing ended for a side.
pub open spec fn ending(r: Result<String, PairingError>) -> Result<Seq<char>, Why> {
    match r {
        Ok(name) => Ok(name@),
        Err(e) => Err(e@),
    }
}

/// A side that waits for one that has ended finds the connection closed.
pub open spec fn gone() -> Why {
    Why::Proto("connection closed"@)
}

impl Side {
    /// Whether both sides have a key, and the answering side finds the
    /// dialing side's proof right.
    pub open spec fn convinces(self, answerer: Side) -> bool {
        let ka = self.key_from(answerer.opening());
        let kb = answerer.key_from(self.opening());
        &&& ka is Some
        &&& kb is Some
        &&& passes(
            proof_of(kb->0, label_a(), answerer.exporter),
            proof_of(ka->0, label_a(), self.exporter),
        )
    }

    /// How an exchange with `answerer` ends for the dialing side.
    pub open spec fn dialed(self, answerer: Side) -> Result<Seq<char>, Why> {
        let ka = self.key_from(answerer.opening());
        let kb = answerer.key_from(self.opening());
        if ka is None {
            Err(Why::WrongPin)
        } else if !self.convinces(answerer) {
            Err(gone())
        } else if passes(
            proof_of(ka->0, label_b(), self.exporter),
            proof_of(kb->0, label_b(), answerer.exporter),
        ) {
            Ok(answerer.device_name)
        } else {
            Err(Why::WrongPin)
        }
    }

    /// How an exchange with `dialer` ends for the answering side.
    pub open spec fn answered(self, dialer: Side) -> Result<Seq<char>, Why> {
        if dialer.convinces(self) {
            Ok(dialer.device_name)
        } else if self.key_from(dialer.opening()) is Some && dialer.key_from(self.opening())
            is None {
            Err(gone())
        } else {
            Err(Why::WrongPin)
        }
    }

    /// How far the dialing side comes in an exchange with `answerer`.
    pub open spec fn dialed_to(self, answerer: Side) -> Progressed {
        let ka = self.key_from(answerer.opening());
        if ka is Some && !self.convinces(answerer) {
            Progressed::Proving { key: ka->0, peer_name: answerer.device_name }
        } else {
            Progressed::Over
        }
    }

    /// How far the answering side comes in an exchange with `dialer`.
    pub open spec fn answered_to(self, dialer: Side) -> Progressed {
        let kb = self.key_from(dialer.opening());
        if kb is Some && dialer.key_from(self.opening()) is None {
            Progressed::Proving { key: kb->0, peer_name: dialer.device_name }
        } else {
            Progressed::Over
        }
    }
}

/// A whole exchange between two sides that can hand each other messages
/// directly: how it ends for the dialing side and for the answering side.
/// With the same PIN in the same session both complete, each with the
/// other's name; otherwise each completes exactly if the other's proof is
/// the one that it expects.
pub fn exchange(dialer: &mut PairSide, answerer: &mut PairSide) -> (r: (
    Result<String, PairingError>,
    Result<String, PairingError>,
))
    requires
        old(dialer)@.stage is Greeting,
        old(answerer)@.stage is Greeting,
    ensures
        ending(r.0) == old(dialer)@.dialed(old(answerer)@),
        ending(r.1) == old(answerer)@.answered(old(dialer)@),
        final(dialer)@ == old(dialer)@.at_stage(old(dialer)@.dialed_to(old(answerer)@)),
        final(answerer)@ == old(answerer)@.at_stage(old(answerer)@.answered_to(old(dialer)@)),
        old(dialer)@.pin == old(answerer)@.pin && old(dialer)@.exporter == old(answerer)@.exporter
            ==> r.0 is Ok && r.1 is Ok && r.0->Ok_0@ == old(answerer)@.device_name && r.1->Ok_0@
            == old(dialer)@.device_name,
{
    let ghost a = dialer@;
    let ghost b = answerer@;
    let hello = dialer.start();
    let first = answerer.run_responder(hello);
    proof {
        if a.pin == b.pin && a.exporter == b.exporter {
            assert(b.agrees_on(a.opening()));
            assert(a.seed.len() == 32);
            assert(a.opening() == spake_message(encode_utf8(b.pin), identity(), a.seed));
            matching_pins_pair(a, b);
        }
    }
    let reply = match first.send {
        Some(m) => m,
        None => {
            return (
                Err(PairingError::Proto("connection closed".to_owned())),
                Err(PairingError::UnexpectedMessage),
            );
        },
    };
    let second = dialer.run_initiator(reply);
    if let Some(Err(e)) = first.outcome {
        let ended = match second.outcome {
            Some(o) => o,
            None => Err(PairingError::Proto("connection closed".to_owned())),
        };
        return (ended, Err(e));
    }
    let proof_a = match second.send {
        Some(m) => m,
        None => {
            let ended = match second.outcome {
                Some(o) => o,
                None => Err(PairingError::UnexpectedMessage),
            };
            return (ended, Err(PairingError::Proto("connection closed".to_owned())));
        },
    };
    let third = answerer.run_responder(proof_a);
    let named = match third.outcome {
        Some(o) => o,
        None => Err(PairingError::UnexpectedMessage),
    };
    let proof_b = match third.send {
        Some(m) => m,
        None => {
            return (Err(PairingError::Proto("connection closed".to_owned())), named);
        },
    };
    let fourth = dialer.run_initiator(proof_b);
    let ended = match fourth.outcome {
        Some(o) => o,
        None => Err(PairingError::UnexpectedMessage),
    };
    (ended, named)
}

/// The bytes of an optional list.
pub open spec fn opt_bytes(o: Option<Vec<u8>>) -> Option<Seq<u8>> {
    match o {
        Some(v) => Some(v@),
        None => None,
    }
}

/* ---------------------------------- laws ---------------------------------- */

/// With one PIN and one session, both sides of an exchange complete, each
/// with the other's name, wherever they arrive at one key from each other's
/// messages.
pub proof fn matching_pins_pair(a: Side, b: Side)
    requires
        a.stage is Greeting,
        b.stage is Greeting,
        a.pin == b.pin,
        a.exporter == b.exporter,
        a.key_from(b.opening()) is Some,
        a.key_from(b.opening()) == b.key_from(a.opening()),
    ensures
        ({
            let start = Msg::PairStart { spake_msg: a.opening(), name: a.device_name };
            let (b1, reply) = b.answerer_on(start);
            let (a1, proof_a) = a.dialer_on(reply.send->0);
            let (b2, proof_b) = b1.answerer_on(proof_a.send->0);
            let (a2, end) = a1.dialer_on(proof_b.send->0);
            &&& reply.send is Some && reply.outcome is None
            &&& proof_a.send is Some && proof_a.outcome is None
            &&& proof_b.send is Some && proof_b.outcome == Some(Ok::<Seq<char>, Why>(a.device_name))
            &&& end == (PairMove { send: None, outcome: Some(Ok(b.device_name)) })
        }),
{
}

/// The answering side completes exactly if the dialing side convinces it,
/// and the dialing side only if the answering side does.
pub proof fn nobody_completes_alone_first(a: Side, b: Side)
    ensures
        b.answered(a) is Ok <==> a.convinces(b),
        a.dialed(b) is Ok ==> b.answered(a) is Ok,
{
}

/// A side completes only on a proof that passes for the one it expects, made
/// over its own session with the key it arrived at.
pub proof fn only_proofs_complete(s: Side, msg: Msg)
    ensures
        s.dialer_on(msg).1.outcome is Some && s.dialer_on(msg).1.outcome->0 is Ok ==> s.stage
            is Proving && msg is PairConfirmB && passes(
            proof_of(s.stage->key, label_b(), s.exporter),
            msg->PairConfirmB_mac,
        ),
        s.answerer_on(msg).1.outcome is Some && s.answerer_on(msg).1.outcome->0 is Ok ==> s.stage
            is Proving && msg is PairConfirmA && passes(
            proof_of(s.stage->key, label_a(), s.exporter),
            msg->PairConfirmA_mac,
        ),
{
}

/// A side that has ended stays so: a wrong guess costs the attempt.
pub proof fn ended_sides_stay_ended(s: Side, msg: Msg)
    requires
        s.stage is Over,
    ensures
        s.dialer_on(msg) == (s, fails(Why::UnexpectedMessage)),
        s.answerer_on(msg) == (s, fails(Why::UnexpectedMessage)),
{
}

/// A PIN is six characters, each a digit.
pub proof fn pins_have_six_digits(n: int)
    requires
        0 <= n < PINS,
    ensures
        pin_of(n).len() == 6,
        forall|i: int| 0 <= i < 6 ==> '0' <= #[trigger] pin_of(n)[i] <= '9',
{
}

proof fn digits_differ(d: int, e: int)
    requires
        0 <= d < 10,
        0 <= e < 10,
        digit_char(d) == digit_char(e),
    ensures
        d == e,
{
}

/// Different numbers have different PINs.
pub proof fn pins_differ(a: int, b: int)
    requires
        0 <= a < PINS,
        0 <= b < PINS,
        pin_of(a) == pin_of(b),
    ensures
        a == b,
{
    let x = pin_of(a);
    let y = pin_of(b);
    assert(x[0] == y[0] && x[1] == y[1] && x[2] == y[2] && x[3] == y[3] && x[4] == y[4] && x[5]
        == y[5]);
    digits_differ(a / 100_000 % 10, b / 100_000 % 10);
    digits_differ(a / 10_000 % 10, b / 10_000 % 10);
    digits_differ(a / 1000 % 10, b / 1000 % 10);
    digits_differ(a / 100 % 10, b / 100 % 10);
    digits_differ(a / 10 % 10, b / 10 % 10);
    digits_differ(a % 10, b % 10);
    same_leading(a, b);
}

proof fn same_leading(a: int, b: int)
    requires
        0 <= a < PINS,
        0 <= b < PINS,
        a / 100_000 % 10 == b / 100_000 % 10,
        a / 10_000 % 10 == b / 10_000 % 10,
        a / 1000 % 10 == b / 1000 % 10,
        a / 100 % 10 == b / 100 % 10,
        a / 10 % 10 == b / 10 % 10,
        a % 10 == b % 10,
    ensures
        a == b,
{
    assert(a / 100_000 == b / 100_000);
    assert(a / 10_000 / 10 == a / 100_000 && b / 10_000 / 10 == b / 100_000);
    assert(a / 10_000 == b / 10_000);
    assert(a / 1000 / 10 == a / 10_000 && b / 1000 / 10 == b / 10_000);
    assert(a / 1000 == b / 1000);
    assert(a / 100 / 10 == a / 1000 && b / 100 / 10 == b / 1000);
    assert(a / 100 == b / 100);
    assert(a / 10 / 10 == a / 100 && b / 10 / 10 == b / 100);
    assert(a / 10 == b / 10);
}

} // verus!
