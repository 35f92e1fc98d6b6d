//! The secure channel: PIN-derived key material, sealed messages, channel
//! announcements, and the manager that owns the channel lifecycle, the two
//! announcement stores and the brute-force lockout.

use vstd::prelude::*;

use crate::bytes::{bytes_eq, copy_bytes, zero_bytes};
use crate::crypto::{aead_open, aead_seal, aead_plain, derive_key, derived_key_of, generate_salt,
    random_bytes, random_pin};
use crate::text::{masked_pin_string, parse_i32, pin_to_string, spec_masked_pin_chars,
    spec_parse_i32, spec_pin_chars};
use vstd::string::StringExecFns;

verus! {

/// The fixed plaintext that every channel announcement's validation field
/// encrypts; a joiner accepts a candidate key exactly when decryption
/// yields these bytes.
pub open spec fn spec_validation_text() -> Seq<u8> {
    seq![83u8, 69u8, 67u8, 85u8, 82u8, 69u8, 95u8, 79u8, 75u8]
}

/// The validation plaintext, `"SECURE_OK"` as bytes.
pub fn validation_text() -> (r: Vec<u8>)
    ensures
        r@ == spec_validation_text(),
{
    let mut v: Vec<u8> = Vec::new();
    v.push(83);
    v.push(69);
    v.push(67);
    v.push(85);
    v.push(82);
    v.push(69);
    v.push(95);
    v.push(79);
    v.push(75);
    proof {
        assert(v@ =~= spec_validation_text());
    }
    v
}

/// One AEAD-sealed unit: a fresh random nonce and the ciphertext it seals.
pub struct SecureMessage {
    pub nonce: Vec<u8>,
    pub ciphertext: Vec<u8>,
}

impl SecureMessage {
    /// A well-formed sealed unit carries a 12-byte nonce.
    pub open spec fn wf(&self) -> bool {
        self.nonce@.len() == 12
    }
}

/// A broadcast proof-of-channel: the channel's salt and the sealed
/// validation text, so a joiner can test candidate PINs offline.
pub struct ChannelAnnounce {
    pub salt: Vec<u8>,
    pub validation: SecureMessage,
}

impl ChannelAnnounce {
    /// A well-formed announcement carries a 16-byte salt and a well-formed
    /// validation unit.
    pub open spec fn wf(&self) -> bool {
        self.salt@.len() == 16 && self.validation.wf()
    }
}

/// The single active symmetric-key context: salt, derived key and a
/// message counter that is carried but not consulted.
pub struct Channel {
    pub salt: Vec<u8>,
    pub key: Vec<u8>,
    pub counter: u64,
}

impl Channel {
    /// A well-formed channel carries a 16-byte salt and a 32-byte key.
    pub open spec fn wf(&self) -> bool {
        self.salt@.len() == 16 && self.key@.len() == 32
    }

    /// Create a host-side channel: fresh random salt, key derived from the
    /// PIN and that salt.
    pub fn new(PIN: i32) -> (r: Channel)
        ensures
            r.wf(),
            r.key@ == derived_key_of(PIN as int, r.salt@),
            r.counter == 0,
    {
        let salt = generate_salt();
        let key = derive_key(PIN, salt.as_slice());
        Channel { salt, key, counter: 0 }
    }

    /// Create a joiner-side channel from an announcement's salt and the key
    /// that validated against it.
    pub fn new_join_channel(salt: &[u8], key: &[u8]) -> (r: Channel)
        requires
            salt@.len() == 16,
            key@.len() == 32,
        ensures
            r.salt@ == salt@,
            r.key@ == key@,
            r.counter == 0,
            r.wf(),
    {
        Channel { salt: copy_bytes(salt), key: copy_bytes(key), counter: 0 }
    }

    /// Wipe the key material: every byte of key and salt is overwritten
    /// with zero and the counter is reset.
    pub fn clear(&mut self)
        ensures
            final(self).key@.len() == old(self).key@.len(),
            final(self).salt@.len() == old(self).salt@.len(),
            forall|j: int| 0 <= j < final(self).key@.len() ==> final(self).key@[j] == 0u8,
            forall|j: int| 0 <= j < final(self).salt@.len() ==> final(self).salt@[j] == 0u8,
            final(self).counter == 0,
    {
        zero_bytes(&mut self.key);
        zero_bytes(&mut self.salt);
        self.counter = 0;
    }
}

/// What decrypting a sealed unit with a key yields.
pub open spec fn spec_decrypt(key: Seq<u8>, msg: &SecureMessage) -> Option<Seq<u8>> {
    aead_plain(key, msg.nonce@, msg.ciphertext@)
}

/// Seal a message under a 32-byte key with a fresh random nonce. Decrypting
/// the result with the same key yields the message back.
pub fn encrypt_message(key: &[u8], msg_content: &[u8]) -> (r: SecureMessage)
    requires
        key@.len() == 32,
        msg_content@.len() < 0x1000_0000,
    ensures
        r.wf(),
        spec_decrypt(key@, &r) == Some(msg_content@),
        r.ciphertext@.len() == msg_content@.len() + 16,
{
    let nonce = random_bytes(12);
    let ciphertext = aead_seal(key, nonce.as_slice(), msg_content);
    SecureMessage { nonce, ciphertext }
}

/// Open a sealed unit: the plaintext when the key authenticates it, and
/// nothing otherwise — a wrong key and a corrupted ciphertext are
/// indistinguishable by design.
pub fn decrypt_message(key: &[u8], secure_msg: &SecureMessage) -> (r: Option<Vec<u8>>)
    requires
        key@.len() == 32,
        secure_msg.wf(),
    ensures
        match r {
            Some(p) => spec_decrypt(key@, secure_msg) == Some(p@),
            None => spec_decrypt(key@, secure_msg) is None,
        },
{
    aead_open(key, secure_msg.nonce.as_slice(), secure_msg.ciphertext.as_slice())
}

/// Whether a candidate key decrypts an announcement's validation field to
/// the validation text.
pub open spec fn spec_key_is_good(key: Seq<u8>, announce: &ChannelAnnounce) -> bool {
    spec_decrypt(key, &announce.validation) == Some(spec_validation_text())
}

/// Validate a derived key against an announcement by decrypting its
/// validation field and comparing with the validation text.
pub fn key_is_good(key: &[u8], announce: &ChannelAnnounce) -> (r: bool)
    requires
        key@.len() == 32,
        announce.wf(),
    ensures
        r == spec_key_is_good(key@, announce),
{
    match decrypt_message(key, &announce.validation) {
        Some(plaintext) => {
            let expected = validation_text();
            bytes_eq(plaintext.as_slice(), expected.as_slice())
        },
        None => false,
    }
}

/// Build the broadcast announcement for a channel: its salt together with
/// the validation text sealed under its key.
pub fn build_announcement(channel: &Channel) -> (r: ChannelAnnounce)
    requires
        channel.wf(),
    ensures
        r.wf(),
        r.salt@ == channel.salt@,
        spec_key_is_good(channel.key@, &r),
{
    let text = validation_text();
    let validation = encrypt_message(channel.key.as_slice(), text.as_slice());
    ChannelAnnounce { salt: copy_bytes(channel.salt.as_slice()), validation }
}

/// Key derivation is deterministic: one PIN and one salt name one key, in
/// every process and on every machine.
pub proof fn lemma_derive_key_deterministic(pin: int, salt: Seq<u8>, k1: Seq<u8>, k2: Seq<u8>)
    requires
        k1 == derived_key_of(pin, salt),
        k2 == derived_key_of(pin, salt),
    ensures
        k1 == k2,
{
}

/// A key derived from the right PIN decrypts the validation message: when
/// a host sealed the validation text under the key it derived from a PIN
/// and a salt, a joiner deriving a key from the same PIN and that
/// announcement's salt accepts the announcement.
pub proof fn lemma_correct_pin_validates(pin: int, ch: Channel, ann: ChannelAnnounce)
    requires
        ch.key@ == derived_key_of(pin, ch.salt@),
        ann.salt@ == ch.salt@,
        spec_key_is_good(ch.key@, &ann),
    ensures
        spec_matches_pin(pin, ann),
{
}

/// A join can succeed only by validation: when no announcement in either
/// store decrypts to the validation text under the key derived from the
/// entered PIN, the join contract forces the attempt to fail.
pub proof fn lemma_join_needs_validation(
    store: Seq<ChannelAnnounce>,
    phone: Seq<ChannelAnnounce>,
    pin: int,
)
    requires
        forall|j: int| 0 <= j < store.len() ==> !spec_matches_pin(pin, #[trigger] store[j]),
        forall|j: int| 0 <= j < phone.len() ==> !spec_matches_pin(pin, #[trigger] phone[j]),
    ensures
        !spec_any_match(store, pin),
        !spec_any_match(phone, pin),
{
}

/// A running lockout blocks every attempt: while the window has not
/// elapsed the lock is active, and an active lock makes a join fail
/// immediately and change nothing, whatever the PIN.
pub proof fn lemma_lock_blocks(t: BruteForceTracker, deadline: u64, now_ms: u64)
    requires
        t.locked_until == Some(deadline),
        now_ms < deadline,
    ensures
        spec_lock_active(t, now_ms),
{
}

/// An elapsed lockout clears itself: at or past the deadline the lock no
/// longer blocks and the failure counter restarts from zero, so a correct
/// PIN can succeed again.
pub proof fn lemma_lock_expires(t: BruteForceTracker, deadline: u64, now_ms: u64)
    requires
        t.locked_until == Some(deadline),
        now_ms >= deadline,
    ensures
        !spec_lock_active(t, now_ms),
        spec_fa_after_check(t, now_ms) == 0,
{
}

/// The third consecutive failure reaches the lockout threshold: with two
/// failures on the counter and no lock set, one more failed attempt locks
/// further attempts out for the fixed window.
pub proof fn lemma_third_failure_reaches_threshold(t: BruteForceTracker, now_ms: u64)
    requires
        t.locked_until is None,
        t.failed_attempts == 2,
    ensures
        !spec_lock_active(t, now_ms),
        spec_inc_sat(spec_fa_after_check(t, now_ms)) >= LOCKOUT_THRESHOLD,
{
}

/// How long a brute-force lockout lasts, in milliseconds.
pub const LOCKOUT_MS: u64 = 10_000;

/// How many consecutive failures trigger a lockout.
pub const LOCKOUT_THRESHOLD: u32 = 3;

/// The process-wide brute-force state: consecutive failures, the time of
/// the last attempt and, once the threshold is reached, the end of the
/// lockout window. Times are milliseconds on a monotonic clock supplied by
/// the caller.
pub struct BruteForceTracker {
    pub failed_attempts: u32,
    pub last_attempt: u64,
    pub locked_until: Option<u64>,
}

impl BruteForceTracker {
    /// A fresh tracker: no failures, no lockout.
    pub fn new() -> (r: BruteForceTracker)
        ensures
            r.failed_attempts == 0,
            r.last_attempt == 0,
            r.locked_until is None,
    {
        BruteForceTracker { failed_attempts: 0, last_attempt: 0, locked_until: None }
    }
}

/// Whether a lockout window is still running at the given time.
pub open spec fn spec_lock_active(t: BruteForceTracker, now_ms: u64) -> bool {
    t.locked_until matches Some(u) && now_ms < u
}

/// The failure counter after the lock check: an elapsed window resets it.
pub open spec fn spec_fa_after_check(t: BruteForceTracker, now_ms: u64) -> u32 {
    match t.locked_until {
        Some(u) => if now_ms >= u {
            0u32
        } else {
            t.failed_attempts
        },
        None => t.failed_attempts,
    }
}

/// The end of the lockout window an attempt at this time starts; the
/// addition saturates rather than wraps.
pub open spec fn spec_lock_deadline(now_ms: u64) -> u64 {
    if now_ms + LOCKOUT_MS > u64::MAX {
        u64::MAX
    } else {
        (now_ms + LOCKOUT_MS) as u64
    }
}

/// A failure counter incremented without wrapping.
pub open spec fn spec_inc_sat(fa: u32) -> u32 {
    if fa == u32::MAX {
        fa
    } else {
        (fa + 1) as u32
    }
}

/// Whether a key derived from this PIN and an announcement's salt decrypts
/// that announcement's validation field.
pub open spec fn spec_matches_pin(pin: int, ann: ChannelAnnounce) -> bool {
    spec_key_is_good(derived_key_of(pin, ann.salt@), &ann)
}

/// Whether any stored announcement validates under this PIN.
pub open spec fn spec_any_match(store: Seq<ChannelAnnounce>, pin: int) -> bool {
    exists|j: int| 0 <= j < store.len() && spec_matches_pin(pin, #[trigger] store[j])
}

/// Whether some stored announcement carries this salt.
pub open spec fn spec_has_salt(store: Seq<ChannelAnnounce>, salt: Seq<u8>) -> bool {
    exists|j: int| 0 <= j < store.len() && (#[trigger] store[j]).salt@ == salt
}

/// Whether every announcement in a store is well-formed.
pub open spec fn spec_store_wf(store: Seq<ChannelAnnounce>) -> bool {
    forall|j: int| 0 <= j < store.len() ==> (#[trigger] store[j]).wf()
}

/// The channel-visibility mode the peer is in.
#[derive(Clone, Copy, Debug, PartialEq, Eq, Structural)]
pub enum ChannelMode {
    Public,
    Host,
    Joined,
}

/// The owned context that holds the single active channel, the host PIN,
/// both announcement stores, the brute-force tracker, the stored QR image
/// and the channel mode. Exactly one instance exists per process.
pub struct SecureChannelManager {
    pub host_pin: Option<i32>,
    pub active_channel: Option<Channel>,
    pub tracker: BruteForceTracker,
    pub announce_store: Vec<ChannelAnnounce>,
    pub announce_store_phone: Vec<ChannelAnnounce>,
    pub qr_image: Option<Vec<u8>>,
    pub channel_mode: ChannelMode,
}

impl SecureChannelManager {
    /// Well-formedness: a stored PIN lies in the 8-digit range, the active
    /// channel and every stored announcement are well-formed.
    pub open spec fn wf(&self) -> bool {
        &&& (self.host_pin matches Some(p) ==> 10_000_000 <= p < 100_000_000)
        &&& (self.active_channel matches Some(ch) ==> ch.wf())
        &&& spec_store_wf(self.announce_store@)
        &&& spec_store_wf(self.announce_store_phone@)
    }

    /// A fresh context: public mode, no channel, no PIN, empty stores.
    pub fn new() -> (r: SecureChannelManager)
        ensures
            r.wf(),
            r.host_pin is None,
            r.active_channel is None,
            r.tracker.failed_attempts == 0,
            r.tracker.locked_until is None,
            r.announce_store@.len() == 0,
            r.announce_store_phone@.len() == 0,
            r.qr_image is None,
            r.channel_mode is Public,
    {
        SecureChannelManager {
            host_pin: None,
            active_channel: None,
            tracker: BruteForceTracker::new(),
            announce_store: Vec::new(),
            announce_store_phone: Vec::new(),
            qr_image: None,
            channel_mode: ChannelMode::Public,
        }
    }

    /// Draw a fresh 8-digit PIN and record it as the host PIN.
    pub fn generate_PIN(&mut self) -> (pin: i32)
        ensures
            10_000_000 <= pin < 100_000_000,
            final(self).host_pin == Some(pin),
            final(self).active_channel == old(self).active_channel,
            final(self).tracker == old(self).tracker,
            final(self).announce_store == old(self).announce_store,
            final(self).announce_store_phone == old(self).announce_store_phone,
            final(self).qr_image == old(self).qr_image,
            final(self).channel_mode == old(self).channel_mode,
            old(self).wf() ==> final(self).wf(),
    {
        let pin = random_pin();
        self.host_pin = Some(pin);
        pin
    }

    /// The host PIN, if one is set.
    pub fn get_host_PIN(&self) -> (r: Option<i32>)
        ensures
            r == self.host_pin,
    {
        match self.host_pin {
            Some(p) => Some(p),
            None => None,
        }
    }

    /// The host PIN as a decimal string, or `"N/A"` when none is set.
    pub fn get_host_PIN_string(&self) -> (r: String)
        requires
            self.wf(),
        ensures
            self.host_pin matches Some(p) ==> r@ == spec_pin_chars(p as int),
            self.host_pin is None ==> r@ == "N/A"@,
    {
        match self.host_pin {
            Some(p) => pin_to_string(p),
            None => String::from_str("N/A"),
        }
    }

    /// The masked display of the host PIN: four asterisks and its last four
    /// digits, or nothing when no PIN is set.
    pub fn get_masked_host_PIN(&self) -> (r: Option<String>)
        requires
            self.wf(),
        ensures
            r is Some <==> self.host_pin is Some,
            self.host_pin matches Some(p) ==> r matches Some(s) && s@ == spec_masked_pin_chars(
                p as int,
            ),
    {
        match self.host_pin {
            Some(p) => Some(masked_pin_string(p)),
            None => None,
        }
    }

    /// Create a channel from a fresh PIN and make it the active one,
    /// replacing whatever was active before.
    pub fn create_new_channel(&mut self) -> (r: Channel)
        requires
            old(self).wf(),
        ensures
            final(self).wf(),
            r.wf(),
            r.counter == 0,
            final(self).host_pin matches Some(p) && r.key@ == derived_key_of(p as int, r.salt@),
            final(self).active_channel matches Some(ch) && ch.salt@ == r.salt@ && ch.key@ == r.key@
                && ch.counter == r.counter,
            final(self).announce_store == old(self).announce_store,
            final(self).announce_store_phone == old(self).announce_store_phone,
            final(self).tracker == old(self).tracker,
            final(self).channel_mode == old(self).channel_mode,
    {
        let pin = self.generate_PIN();
        let channel = Channel::new(pin);
        let stored = Channel {
            salt: copy_bytes(channel.salt.as_slice()),
            key: copy_bytes(channel.key.as_slice()),
            counter: channel.counter,
        };
        self.active_channel = Some(stored);
        channel
    }

    /// Regenerate the PIN: wipe the current channel's key material, then
    /// create and activate a channel from a fresh PIN.
    pub fn regenerate_PIN(&mut self) -> (r: Channel)
        requires
            old(self).wf(),
        ensures
            final(self).wf(),
            r.wf(),
            r.counter == 0,
            final(self).host_pin matches Some(p) && r.key@ == derived_key_of(p as int, r.salt@),
            final(self).active_channel matches Some(ch) && ch.salt@ == r.salt@ && ch.key@ == r.key@
                && ch.counter == r.counter,
            final(self).announce_store == old(self).announce_store,
            final(self).announce_store_phone == old(self).announce_store_phone,
            final(self).tracker == old(self).tracker,
            final(self).channel_mode == old(self).channel_mode,
    {
        let mut old_channel = self.active_channel.take();
        match &mut old_channel {
            Some(ch) => ch.clear(),
            None => {},
        }
        self.create_new_channel()
    }

    /// A copy of the active channel, if one exists.
    pub fn get_active_channel(&self) -> (r: Option<Channel>)
        requires
            self.wf(),
        ensures
            r is Some <==> self.active_channel is Some,
            r matches Some(ch) ==> self.active_channel matches Some(a) && ch.salt@ == a.salt@
                && ch.key@ == a.key@ && ch.counter == a.counter && ch.wf(),
    {
        match &self.active_channel {
            Some(ch) => Some(
                Channel {
                    salt: copy_bytes(ch.salt.as_slice()),
                    key: copy_bytes(ch.key.as_slice()),
                    counter: ch.counter,
                },
            ),
            None => None,
        }
    }

    /// Drop the active channel after wiping its key material, and clear the
    /// host PIN.
    pub fn destroy_channel(&mut self)
        ensures
            final(self).active_channel is None,
            final(self).host_pin is None,
            final(self).announce_store == old(self).announce_store,
            final(self).announce_store_phone == old(self).announce_store_phone,
            final(self).tracker == old(self).tracker,
            final(self).qr_image == old(self).qr_image,
            final(self).channel_mode == old(self).channel_mode,
            old(self).wf() ==> final(self).wf(),
    {
        let mut old_channel = self.active_channel.take();
        match &mut old_channel {
            Some(ch) => ch.clear(),
            None => {},
        }
        self.active_channel = None;
        self.host_pin = None;
    }

    /// Store a decoded desktop announcement: append it only if no stored
    /// entry already carries its salt. The result reports whether the
    /// record was well-formed, not whether it was new — a duplicate is a
    /// valid record and still yields true, it is only not stored again.
    pub fn store_announcement(&mut self, ann: ChannelAnnounce) -> (valid: bool)
        requires
            old(self).wf(),
        ensures
            final(self).wf(),
            valid == ann.wf(),
            !valid ==> final(self).announce_store == old(self).announce_store,
            valid && spec_has_salt(old(self).announce_store@, ann.salt@)
                ==> final(self).announce_store == old(self).announce_store,
            valid && !spec_has_salt(old(self).announce_store@, ann.salt@)
                ==> final(self).announce_store@ == old(self).announce_store@.push(ann),
            final(self).announce_store_phone == old(self).announce_store_phone,
            final(self).active_channel == old(self).active_channel,
            final(self).host_pin == old(self).host_pin,
            final(self).tracker == old(self).tracker,
            final(self).channel_mode == old(self).channel_mode,
    {
        if ann.salt.len() != 16 || ann.validation.nonce.len() != 12 {
            return false;
        }
        let n = self.announce_store.len();
        let mut i: usize = 0;
        while i < n
            invariant
                *self == *old(self),
                old(self).wf(),
                ann.wf(),
                i <= n,
                n == self.announce_store@.len(),
                forall|j: int| 0 <= j < i ==> (#[trigger] self.announce_store@[j]).salt@
                    != ann.salt@,
            decreases n - i,
        {
            if bytes_eq(self.announce_store[i].salt.as_slice(), ann.salt.as_slice()) {
                proof {
                    assert((#[trigger] self.announce_store@[i as int]).salt@ == ann.salt@);
                }
                return true;
            }
            i += 1;
        }
        self.announce_store.push(ann);
        true
    }

    /// Store a mobile announcement from its extracted fields: reject a salt
    /// that is not 16 bytes or a nonce that is not 12, append only when no
    /// stored entry carries the salt. Returns whether the fields were valid.
    pub fn store_announcement_phone(&mut self, salt: Vec<u8>, nonce: Vec<u8>, ciphertext: Vec<u8>) -> (valid:
        bool)
        requires
            old(self).wf(),
        ensures
            final(self).wf(),
            valid == (salt@.len() == 16 && nonce@.len() == 12),
            !valid ==> final(self).announce_store_phone == old(self).announce_store_phone,
            valid && spec_has_salt(old(self).announce_store_phone@, salt@) ==> final(self).announce_store_phone == old(self).announce_store_phone,
            valid && !spec_has_salt(old(self).announce_store_phone@, salt@) ==> {
                let st0 = old(self).announce_store_phone@;
                let st1 = final(self).announce_store_phone@;
                &&& st1.len() == st0.len() + 1
                &&& st1.last().salt@ == salt@
                &&& st1.last().validation.nonce@ == nonce@
                &&& st1.last().validation.ciphertext@ == ciphertext@
                &&& st1.take(st0.len() as int) == st0
            },
            final(self).announce_store == old(self).announce_store,
            final(self).active_channel == old(self).active_channel,
            final(self).host_pin == old(self).host_pin,
            final(self).tracker == old(self).tracker,
            final(self).channel_mode == old(self).channel_mode,
    {
        if salt.len() != 16 || nonce.len() != 12 {
            return false;
        }
        let incoming = ChannelAnnounce { salt, validation: SecureMessage { nonce, ciphertext } };
        let n = self.announce_store_phone.len();
        let mut i: usize = 0;
        while i < n
            invariant
                *self == *old(self),
                old(self).wf(),
                incoming.salt@ == salt@,
                incoming.validation.nonce@ == nonce@,
                incoming.validation.ciphertext@ == ciphertext@,
                salt@.len() == 16,
                nonce@.len() == 12,
                i <= n,
                n == self.announce_store_phone@.len(),
                forall|j: int| 0 <= j < i ==> (#[trigger] self.announce_store_phone@[j]).salt@
                    != incoming.salt@,
            decreases n - i,
        {
            if bytes_eq(self.announce_store_phone[i].salt.as_slice(), incoming.salt.as_slice()) {
                proof {
                    assert((#[trigger] self.announce_store_phone@[i as int]).salt@ == salt@);
                }
                return true;
            }
            i += 1;
        }
        self.announce_store_phone.push(incoming);
        proof {
            assert(final(self).announce_store_phone@.take(
                old(self).announce_store_phone@.len() as int,
            ) =~= old(self).announce_store_phone@);
        }
        true
    }

    /// Search the mobile announcement store, newest first, for an entry
    /// whose validation decrypts under a key derived from this PIN; return
    /// that entry's salt together with the derived key.
    pub fn try_find_matching_announce(&self, pin: i32) -> (r: Option<(Vec<u8>, Vec<u8>)>)
        requires
            self.wf(),
        ensures
            r is Some <==> spec_any_match(self.announce_store_phone@, pin as int),
            r matches Some((salt, key)) ==> exists|j: int|
                {
                    &&& 0 <= j < self.announce_store_phone@.len()
                    &&& spec_matches_pin(pin as int, #[trigger] self.announce_store_phone@[j])
                    &&& forall|l: int| j < l < self.announce_store_phone@.len()
                        ==> !spec_matches_pin(pin as int, #[trigger] self.announce_store_phone@[l])
                    &&& salt@ == self.announce_store_phone@[j].salt@
                    &&& key@ == derived_key_of(pin as int, salt@)
                    &&& salt@.len() == 16
                    &&& key@.len() == 32
                },
    {
        let n = self.announce_store_phone.len();
        let mut idx: usize = n;
        while idx > 0
            invariant
                self.wf(),
                idx <= n,
                n == self.announce_store_phone@.len(),
                forall|l: int| idx <= l < n ==> !spec_matches_pin(
                    pin as int,
                    #[trigger] self.announce_store_phone@[l],
                ),
            decreases idx,
        {
            idx -= 1;
            let ann = &self.announce_store_phone[idx];
            let key = derive_key(pin, ann.salt.as_slice());
            if key_is_good(key.as_slice(), ann) {
                let salt = copy_bytes(ann.salt.as_slice());
                return Some((salt, key));
            }
        }
        None
    }

    /// Try to join a channel with an entered PIN at the given time.
    ///
    /// A running lockout fails the call immediately and changes nothing.
    /// Otherwise an elapsed lockout is cleared; a PIN that does not parse
    /// counts as a failure; an announcement search covers the desktop store
    /// first and then the mobile store, newest first, and the first match
    /// becomes the active channel and resets the tracker. Exhausting every
    /// candidate counts as a failure, and the third consecutive failure
    /// starts a ten-second lockout.
    pub fn join_with_PIN(&mut self, pin_text: &str, now_ms: u64) -> (ok: bool)
        requires
            old(self).wf(),
        ensures
            final(self).wf(),
            spec_lock_active(old(self).tracker, now_ms) ==> !ok && *final(self) == *old(self),
            !spec_lock_active(old(self).tracker, now_ms) ==> {
                &&& final(self).tracker.last_attempt == now_ms
                &&& final(self).host_pin == old(self).host_pin
                &&& final(self).announce_store == old(self).announce_store
                &&& final(self).announce_store_phone == old(self).announce_store_phone
                &&& final(self).qr_image == old(self).qr_image
                &&& final(self).channel_mode == old(self).channel_mode
            },
            !spec_lock_active(old(self).tracker, now_ms) && spec_parse_i32(pin_text@) is None ==> {
                &&& !ok
                &&& final(self).active_channel == old(self).active_channel
                &&& final(self).tracker.failed_attempts == spec_inc_sat(
                    spec_fa_after_check(old(self).tracker, now_ms),
                )
                &&& final(self).tracker.locked_until is None
            },
            !spec_lock_active(old(self).tracker, now_ms) ==> (spec_parse_i32(
                pin_text@,
            ) matches Some(pin) ==> {
                &&& ok == (spec_any_match(old(self).announce_store@, pin as int) || spec_any_match(
                    old(self).announce_store_phone@,
                    pin as int,
                ))
                &&& ok ==> final(self).tracker.failed_attempts == 0
                    && final(self).tracker.locked_until is None
                &&& (ok && spec_any_match(old(self).announce_store@, pin as int)) ==> exists|j: int|
                    {
                        &&& 0 <= j < old(self).announce_store@.len()
                        &&& spec_matches_pin(pin as int, #[trigger] old(self).announce_store@[j])
                        &&& forall|l: int| j < l < old(self).announce_store@.len()
                            ==> !spec_matches_pin(
                            pin as int,
                            #[trigger] old(self).announce_store@[l],
                        )
                        &&& final(self).active_channel matches Some(ch) && ch.wf() && ch.salt@
                            == old(self).announce_store@[j].salt@ && ch.key@ == derived_key_of(
                            pin as int,
                            ch.salt@,
                        ) && ch.counter == 0
                    }
                &&& (ok && !spec_any_match(old(self).announce_store@, pin as int)) ==> exists|
                    j: int,
                |
                    {
                        &&& 0 <= j < old(self).announce_store_phone@.len()
                        &&& spec_matches_pin(
                            pin as int,
                            #[trigger] old(self).announce_store_phone@[j],
                        )
                        &&& forall|l: int| j < l < old(self).announce_store_phone@.len()
                            ==> !spec_matches_pin(
                            pin as int,
                            #[trigger] old(self).announce_store_phone@[l],
                        )
                        &&& final(self).active_channel matches Some(ch) && ch.wf() && ch.salt@
                            == old(self).announce_store_phone@[j].salt@ && ch.key@
                            == derived_key_of(pin as int, ch.salt@) && ch.counter == 0
                    }
                &&& !ok ==> {
                    &&& final(self).active_channel == old(self).active_channel
                    &&& final(self).tracker.failed_attempts == spec_inc_sat(
                        spec_fa_after_check(old(self).tracker, now_ms),
                    )
                    &&& final(self).tracker.locked_until == (if spec_inc_sat(
                        spec_fa_after_check(old(self).tracker, now_ms),
                    ) >= LOCKOUT_THRESHOLD {
                        Some(spec_lock_deadline(now_ms))
                    } else {
                        Option::<u64>::None
                    })
                }
            }),
    {
        match self.tracker.locked_until {
            Some(u) => {
                if now_ms < u {
                    return false;
                }
                self.tracker.locked_until = None;
                self.tracker.failed_attempts = 0;
            },
            None => {},
        }
        self.tracker.last_attempt = now_ms;

        let in_pin = match parse_i32(pin_text) {
            Some(p) => p,
            None => {
                self.tracker.failed_attempts = if self.tracker.failed_attempts == u32::MAX {
                    u32::MAX
                } else {
                    self.tracker.failed_attempts + 1
                };
                return false;
            },
        };

        // Desktop announcements, newest first.
        let n = self.announce_store.len();
        let mut idx: usize = n;
        while idx > 0
            invariant
                self.wf(),
                idx <= n,
                n == self.announce_store@.len(),
                self.host_pin == old(self).host_pin,
                self.active_channel == old(self).active_channel,
                self.announce_store == old(self).announce_store,
                self.announce_store_phone == old(self).announce_store_phone,
                self.qr_image == old(self).qr_image,
                self.channel_mode == old(self).channel_mode,
                self.tracker.last_attempt == now_ms,
                self.tracker.failed_attempts == spec_fa_after_check(old(self).tracker, now_ms),
                self.tracker.locked_until is None,
                !spec_lock_active(old(self).tracker, now_ms),
                spec_parse_i32(pin_text@) == Some(in_pin),
                forall|l: int| idx <= l < n ==> !spec_matches_pin(
                    in_pin as int,
                    #[trigger] self.announce_store@[l],
                ),
            decreases idx,
        {
            idx -= 1;
            let key = derive_key(in_pin, self.announce_store[idx].salt.as_slice());
            if key_is_good(key.as_slice(), &self.announce_store[idx]) {
                proof {
                    assert(spec_matches_pin(
                        in_pin as int,
                        #[trigger] self.announce_store@[idx as int],
                    ));
                }
                let channel = Channel::new_join_channel(
                    self.announce_store[idx].salt.as_slice(),
                    key.as_slice(),
                );
                self.active_channel = Some(channel);
                self.tracker.failed_attempts = 0;
                self.tracker.locked_until = None;
                return true;
            }
        }

        // Mobile announcements next.
        match self.try_find_matching_announce(in_pin) {
            Some((salt, key)) => {
                let channel = Channel::new_join_channel(salt.as_slice(), key.as_slice());
                self.active_channel = Some(channel);
                self.tracker.failed_attempts = 0;
                self.tracker.locked_until = None;
                return true;
            },
            None => {},
        }

        self.tracker.failed_attempts = if self.tracker.failed_attempts == u32::MAX {
            u32::MAX
        } else {
            self.tracker.failed_attempts + 1
        };
        if self.tracker.failed_attempts >= LOCKOUT_THRESHOLD {
            let deadline = if now_ms > u64::MAX - LOCKOUT_MS {
                u64::MAX
            } else {
                now_ms + LOCKOUT_MS
            };
            self.tracker.locked_until = Some(deadline);
        }
        false
    }

    /// Switch the mode back to public without touching the channel.
    pub fn force_switch_to_public(&mut self)
        ensures
            final(self).channel_mode is Public,
            final(self).active_channel == old(self).active_channel,
            final(self).host_pin == old(self).host_pin,
            final(self).announce_store == old(self).announce_store,
            final(self).announce_store_phone == old(self).announce_store_phone,
            final(self).tracker == old(self).tracker,
            final(self).qr_image == old(self).qr_image,
            old(self).wf() ==> final(self).wf(),
    {
        self.channel_mode = ChannelMode::Public;
    }

    /// Set only the channel mode; the rest of the state is untouched.
    pub fn set_channel_mode_only(&mut self, new_mode: ChannelMode)
        ensures
            final(self).channel_mode == new_mode,
            final(self).active_channel == old(self).active_channel,
            final(self).host_pin == old(self).host_pin,
            final(self).announce_store == old(self).announce_store,
            final(self).announce_store_phone == old(self).announce_store_phone,
            final(self).tracker == old(self).tracker,
            final(self).qr_image == old(self).qr_image,
            old(self).wf() ==> final(self).wf(),
    {
        self.channel_mode = new_mode;
    }

    /// The display strings for the PIN panel: the full PIN and its masked
    /// form. When no PIN is set, both read `"N/A"` and the channel is
    /// destroyed, since no PIN means the peer is back in public mode.
    pub fn update_ui_PIN(&mut self) -> (r: (String, String))
        requires
            old(self).wf(),
        ensures
            final(self).wf(),
            old(self).host_pin matches Some(p) ==> {
                &&& r.0@ == spec_pin_chars(p as int)
                &&& r.1@ == spec_masked_pin_chars(p as int)
                &&& *final(self) == *old(self)
            },
            old(self).host_pin is None ==> {
                &&& r.0@ == "N/A"@
                &&& r.1@ == "N/A"@
                &&& final(self).active_channel is None
                &&& final(self).host_pin is None
                &&& final(self).announce_store == old(self).announce_store
                &&& final(self).announce_store_phone == old(self).announce_store_phone
                &&& final(self).channel_mode == old(self).channel_mode
            },
    {
        match self.host_pin {
            Some(p) => (pin_to_string(p), masked_pin_string(p)),
            None => {
                self.destroy_channel();
                (String::from_str("N/A"), String::from_str("N/A"))
            },
        }
    }

    /// Record the rendered QR image for the current PIN.
    pub fn set_QR_image_data(&mut self, bytes: Vec<u8>)
        ensures
            final(self).qr_image matches Some(b) && b@ == bytes@,
            final(self).active_channel == old(self).active_channel,
            final(self).host_pin == old(self).host_pin,
            final(self).announce_store == old(self).announce_store,
            final(self).announce_store_phone == old(self).announce_store_phone,
            final(self).tracker == old(self).tracker,
            final(self).channel_mode == old(self).channel_mode,
            old(self).wf() ==> final(self).wf(),
    {
        self.qr_image = Some(bytes);
    }

    /// A copy of the stored QR image, if one exists.
    pub fn get_QR_image_data(&self) -> (r: Option<Vec<u8>>)
        ensures
            r is Some <==> self.qr_image is Some,
            r matches Some(b) ==> self.qr_image matches Some(q) && b@ == q@,
    {
        match &self.qr_image {
            Some(b) => Some(copy_bytes(b.as_slice())),
            None => None,
        }
    }
}

} // verus!
