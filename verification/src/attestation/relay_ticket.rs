use vstd::prelude::*;

use crate::attestation::crypto::{
    ed25519_accepts, ed25519_key_decodes, ed25519_public_key, ed25519_public_of, ed25519_sign, ed25519_signature, ed25519_verify,
    generate_secret, hex_decode, hex_decoded, hex_encode, hex_encoded, is_hex_text, lemma_hex_round_trip, sha256,
    sha256_digest,
};
use crate::clock::now_secs;

verus! {

/// A signed ticket proving a relay node is authorized to advertise an
/// endpoint for a given target peer.
#[derive(Debug, Clone)]
pub struct RelayTicket {
    /// The relay node's identifier.
    pub relay_id: String,
    /// The target peer's identifier.
    pub target_id: String,
    /// Increasing epoch counter, against replay.
    pub epoch: u64,
    /// Unix time in seconds after which the ticket is void.
    pub expiry: u64,
    /// Hex-encoded Ed25519 signature over the ticket's message.
    pub signature: String,
}

impl RelayTicket {
    pub fn duplicate(&self) -> (r: Self)
        ensures
            r == *self,
    {
        RelayTicket {
            relay_id: self.relay_id.clone(),
            target_id: self.target_id.clone(),
            epoch: self.epoch,
            expiry: self.expiry,
            signature: self.signature.clone(),
        }
    }
}

#[derive(Debug, Clone)]
pub enum TicketError {
    InvalidSignature,
    Expired,
    ReplayDetected,
    KeyError(String),
}

/// The first `n` little-endian bytes of `x`.
pub open spec fn le_bytes(x: nat, n: nat) -> Seq<u8>
    decreases n,
{
    if n == 0 {
        Seq::empty()
    } else {
        seq![(x % 256) as u8] + le_bytes(x / 256, (n - 1) as nat)
    }
}

/// The separator between the fields of a ticket's message.
pub open spec fn separator() -> Seq<u8> {
    seq![124u8, 124u8]
}

/// The bytes hashed for a ticket: the relay and target identifiers, the
/// epoch and the expiry in little-endian order, separated by `||`.
pub open spec fn framed_fields(relay_id: Seq<char>, target_id: Seq<char>, epoch: u64, expiry: u64) -> Seq<u8> {
    vstd::utf8::encode_utf8(relay_id) + separator() + vstd::utf8::encode_utf8(target_id) + separator()
        + le_bytes(epoch as nat, 8) + separator() + le_bytes(expiry as nat, 8)
}

/// The message a ticket's signature covers: the digest of its framed fields.
pub open spec fn ticket_message(relay_id: Seq<char>, target_id: Seq<char>, epoch: u64, expiry: u64) -> Seq<u8> {
    sha256_digest(framed_fields(relay_id, target_id, epoch, expiry))
}

/// Whether `t` carries a valid signature under `public_key`: hex of 64
/// bytes that Ed25519 accepts on the ticket's message.
pub open spec fn signature_valid(t: RelayTicket, public_key: Seq<u8>) -> bool {
    let text = vstd::utf8::encode_utf8(t.signature@);
    &&& is_hex_text(text)
    &&& hex_decoded(text).len() == 64
    &&& ed25519_accepts(public_key, ticket_message(t.relay_id@, t.target_id@, t.epoch, t.expiry), hex_decoded(text))
}

/// Whether `t` carries the signature that the key of the 32 bytes `secret`
/// makes on its message, and that signature checks out under the key's
/// public half.
pub open spec fn signed_with(t: RelayTicket, secret: Seq<u8>) -> bool {
    &&& secret.len() == 32
    &&& t.signature@ == hex_encoded(ed25519_signature(secret, ticket_message(t.relay_id@, t.target_id@, t.epoch, t.expiry)))
    &&& signature_valid(t, ed25519_public_key(secret))
}

/// Whether `t` is accepted at `now` under `public_key` when its relay was
/// last seen at `min_epoch`.
pub open spec fn ticket_accepted(t: RelayTicket, public_key: Seq<u8>, min_epoch: u64, now: u64) -> bool {
    now <= t.expiry && t.epoch >= min_epoch && signature_valid(t, public_key)
}

/// A ticket signed with the secret of a key pair (as `new_at`, `new` and
/// the binding handler sign it) is accepted under the pair's public key
/// (as `generate_relay_keypair` derives it) exactly while it has not
/// expired and its epoch is not below the relay's last seen one.
pub proof fn lemma_signed_ticket_accepted(
    t: RelayTicket,
    secret: Seq<u8>,
    public_key: Seq<u8>,
    min_epoch: u64,
    now: u64,
)
    requires
        signed_with(t, secret),
        public_key == ed25519_public_key(secret),
    ensures
        ticket_accepted(t, public_key, min_epoch, now) <==> (now <= t.expiry && t.epoch >= min_epoch),
{
}

fn push_all(out: &mut Vec<u8>, bytes: &[u8])
    ensures
        final(out)@ == old(out)@ + bytes@,
{
    let mut i: usize = 0;
    while i < bytes.len()
        invariant
            i <= bytes.len(),
            out@ == old(out)@ + bytes@.take(i as int),
        decreases bytes.len() - i,
    {
        out.push(bytes[i]);
        assert(bytes@.take(i + 1) =~= bytes@.take(i as int).push(bytes@[i as int]));
        i = i + 1;
    }
    assert(bytes@.take(i as int) =~= bytes@);
}

fn push_le_u64(out: &mut Vec<u8>, x: u64)
    ensures
        final(out)@ == old(out)@ + le_bytes(x as nat, 8),
{
    let mut v: u64 = x;
    let mut i: usize = 0;
    while i < 8
        invariant
            i <= 8,
            out@ + le_bytes(v as nat, (8 - i) as nat) == old(out)@ + le_bytes(x as nat, 8),
        decreases 8 - i,
    {
        let ghost before = out@;
        assert(le_bytes(v as nat, (8 - i) as nat) == seq![(v % 256) as u8] + le_bytes((v / 256) as nat, (8 - i - 1) as nat));
        out.push((v % 256) as u8);
        assert(out@ + le_bytes((v / 256) as nat, (8 - i - 1) as nat) =~= before + le_bytes(v as nat, (8 - i) as nat));
        v = v / 256;
        i = i + 1;
    }
    assert(le_bytes(v as nat, 0) =~= Seq::<u8>::empty());
    assert(out@ =~= out@ + le_bytes(v as nat, 0));
}

/// The digest that a ticket's signature covers.
fn message_to_sign(relay_id: &str, target_id: &str, epoch: u64, expiry: u64) -> (m: Vec<u8>)
    ensures
        m@ == ticket_message(relay_id@, target_id@, epoch, expiry),
{
    let mut framed: Vec<u8> = Vec::new();
    push_all(&mut framed, relay_id.as_bytes());
    push_all(&mut framed, "||".as_bytes());
    push_all(&mut framed, target_id.as_bytes());
    push_all(&mut framed, "||".as_bytes());
    push_le_u64(&mut framed, epoch);
    push_all(&mut framed, "||".as_bytes());
    push_le_u64(&mut framed, expiry);
    proof {
        reveal_strlit("||");
        assert(vstd::utf8::encode_utf8("||"@) =~= separator()) by {
            vstd::utf8::is_ascii_chars_encode_utf8("||"@);
        }
        assert(framed@ =~= framed_fields(relay_id@, target_id@, epoch, expiry));
    }
    sha256(framed.as_slice())
}

impl RelayTicket {
    /// A ticket for `relay_id` to serve `target_id`, valid until
    /// `now + ttl_secs` and signed with the relay's key, given by its 32
    /// secret bytes.
    pub fn new_at(
        signing_key: &[u8; 32],
        relay_id: &str,
        target_id: &str,
        current_epoch: u64,
        ttl_secs: u64,
        now: u64,
    ) -> (t: Self)
        requires
            now + ttl_secs <= u64::MAX,
        ensures
            t.relay_id@ == relay_id@,
            t.target_id@ == target_id@,
            t.epoch == current_epoch,
            t.expiry == now + ttl_secs,
            signed_with(t, signing_key@),
    {
        let expiry = now + ttl_secs;
        let msg = message_to_sign(relay_id, target_id, current_epoch, expiry);
        let sig = ed25519_sign(signing_key, msg.as_slice());
        proof { lemma_hex_round_trip(sig@); }
        let t = RelayTicket {
            relay_id: relay_id.to_owned(),
            target_id: target_id.to_owned(),
            epoch: current_epoch,
            expiry,
            signature: hex_encode(sig.as_slice()),
        };
        proof {
            assert(signed_with(t, signing_key@));
        }
        t
    }

    /// A ticket for `relay_id` to serve `target_id`, valid for `ttl_secs`
    /// from the clock's reading (to the end of time where that overflows),
    /// signed with the relay's key.
    pub fn new(
        signing_key: &[u8; 32],
        relay_id: &str,
        target_id: &str,
        current_epoch: u64,
        ttl_secs: u64,
    ) -> (t: Self)
        ensures
            t.relay_id@ == relay_id@,
            t.target_id@ == target_id@,
            t.epoch == current_epoch,
            t.expiry >= ttl_secs,
            signed_with(t, signing_key@),
    {
        let now = now_secs();
        let ttl = if ttl_secs <= u64::MAX - now { ttl_secs } else { u64::MAX - now };
        RelayTicket::new_at(signing_key, relay_id, target_id, current_epoch, ttl, now)
    }

    /// Checks the ticket at `now` against the relay's public key bytes: it
    /// must not have expired, its epoch must not be below `min_epoch`, and
    /// its signature must hold.
    pub fn verify_at(&self, public_key: &[u8], min_epoch: u64, now: u64) -> (r: Result<(), TicketError>)
        requires
            public_key@.len() == 32,
        ensures
            now > self.expiry ==> r == Err::<(), TicketError>(TicketError::Expired),
            now <= self.expiry && self.epoch < min_epoch ==> r == Err::<(), TicketError>(TicketError::ReplayDetected),
            now <= self.expiry && self.epoch >= min_epoch ==> {
                let text = vstd::utf8::encode_utf8(self.signature@);
                if !is_hex_text(text) {
                    r matches Err(TicketError::KeyError(m)) && "hex decode: "@.is_prefix_of(m@)
                } else if hex_decoded(text).len() != 64 {
                    r matches Err(TicketError::KeyError(m)) && m@ == "bad signature length"@
                } else if signature_valid(*self, public_key@) {
                    r is Ok
                } else {
                    r == Err::<(), TicketError>(TicketError::InvalidSignature)
                }
            },
            r is Ok <==> ticket_accepted(*self, public_key@, min_epoch, now),
    {
        if now > self.expiry {
            return Err(TicketError::Expired);
        }
        if self.epoch < min_epoch {
            return Err(TicketError::ReplayDetected);
        }
        let msg = message_to_sign(self.relay_id.as_str(), self.target_id.as_str(), self.epoch, self.expiry);
        let sig_bytes = match hex_decode(self.signature.as_str()) {
            Ok(b) => b,
            Err(e) => {
                let mut m = String::from_str("hex decode: ");
                m.append(e.as_str());
                proof {
                    reveal_strlit("hex decode: ");
                    assert(m@.subrange(0, 12) =~= "hex decode: "@);
                }
                return Err(TicketError::KeyError(m));
            },
        };
        if sig_bytes.len() != 64 {
            return Err(TicketError::KeyError(String::from_str("bad signature length")));
        }
        if ed25519_verify(public_key, msg.as_slice(), sig_bytes.as_slice()) {
            Ok(())
        } else {
            Err(TicketError::InvalidSignature)
        }
    }

    /// Checks the ticket at the clock's reading against the relay's public
    /// key: accepted exactly when `ticket_accepted` holds at that reading.
    pub fn verify(&self, relay_public_key: &[u8; 32], min_epoch: u64) -> (r: Result<(), TicketError>)
        ensures
            exists|now: u64| (r is Ok) == #[trigger] ticket_accepted(*self, relay_public_key@, min_epoch, now),
            r matches Err(TicketError::ReplayDetected) ==> self.epoch < min_epoch,
            r is Ok ==> self.epoch >= min_epoch && signature_valid(*self, relay_public_key@),
    {
        let now = now_secs();
        let r = self.verify_at(relay_public_key.as_slice(), min_epoch, now);
        assert((r is Ok) == ticket_accepted(*self, relay_public_key@, min_epoch, now));
        r
    }
}

/// A fresh Ed25519 key pair, as its 32 secret bytes and the encoded public
/// key that they derive.
pub fn generate_relay_keypair() -> (keys: ([u8; 32], [u8; 32]))
    ensures
        keys.1@ == ed25519_public_key(keys.0@),
        ed25519_key_decodes(keys.1@),
{
    let secret = generate_secret();
    let public = ed25519_public_of(&secret);
    (secret, public)
}

} // verus!
