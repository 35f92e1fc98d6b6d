use lanchgo::channel::{
    build_announcement, decrypt_message, encrypt_message, key_is_good, validation_text, Channel,
    ChannelAnnounce, ChannelMode, SecureChannelManager, SecureMessage,
};
use lanchgo::crypto::derive_key;

fn salt_of(byte: u8) -> Vec<u8> {
    vec![byte; 16]
}

#[test]
fn derive_key_is_deterministic() {
    let salt = salt_of(7);
    let k1 = derive_key(12_345_678, &salt);
    let k2 = derive_key(12_345_678, &salt);
    assert_eq!(k1, k2);
    assert_eq!(k1.len(), 32);
}

#[test]
fn derive_key_depends_on_pin_and_salt() {
    let salt = salt_of(7);
    let other_salt = salt_of(8);
    let k1 = derive_key(12_345_678, &salt);
    let k2 = derive_key(12_345_679, &salt);
    let k3 = derive_key(12_345_678, &other_salt);
    assert_ne!(k1, k2);
    assert_ne!(k1, k3);
}

#[test]
fn encrypt_decrypt_round_trip() {
    let key = derive_key(11_111_111, &salt_of(1));
    let sealed = encrypt_message(&key, b"hello over the lan");
    assert_eq!(sealed.nonce.len(), 12);
    assert_eq!(sealed.ciphertext.len(), b"hello over the lan".len() + 16);
    let opened = decrypt_message(&key, &sealed).expect("must decrypt under the same key");
    assert_eq!(opened, b"hello over the lan".to_vec());
}

#[test]
fn decrypt_with_wrong_key_fails() {
    let key = derive_key(11_111_111, &salt_of(1));
    let wrong = derive_key(22_222_222, &salt_of(1));
    let sealed = encrypt_message(&key, b"secret");
    assert!(decrypt_message(&wrong, &sealed).is_none());
}

#[test]
fn decrypt_corrupted_ciphertext_fails() {
    let key = derive_key(11_111_111, &salt_of(1));
    let mut sealed = encrypt_message(&key, b"secret");
    sealed.ciphertext[0] ^= 0xff;
    assert!(decrypt_message(&key, &sealed).is_none());
}

#[test]
fn validation_round_trip_with_derived_key() {
    // A validation message encrypted with a derived key decrypts under a
    // key derived again from the same PIN and salt.
    let pin = 34_567_890;
    let channel = Channel::new(pin);
    let ann = build_announcement(&channel);
    let candidate = derive_key(pin, &ann.salt);
    assert!(key_is_good(&candidate, &ann));
}

#[test]
fn validation_fails_with_other_pin() {
    let channel = Channel::new(34_567_890);
    let ann = build_announcement(&channel);
    let candidate = derive_key(34_567_891, &ann.salt);
    assert!(!key_is_good(&candidate, &ann));
}

#[test]
fn validation_text_is_secure_ok() {
    assert_eq!(validation_text(), b"SECURE_OK".to_vec());
}

#[test]
fn channel_clear_wipes_key_material() {
    let mut channel = Channel::new(34_567_890);
    channel.clear();
    assert!(channel.key.iter().all(|b| *b == 0));
    assert!(channel.salt.iter().all(|b| *b == 0));
    assert_eq!(channel.counter, 0);
}

#[test]
fn store_announcement_deduplicates_by_salt() {
    let mut mgr = SecureChannelManager::new();
    let channel = Channel::new(34_567_890);
    let a1 = build_announcement(&channel);
    let a2 = build_announcement(&channel);
    assert!(mgr.store_announcement(a1));
    // The second announcement shares the salt: still a valid record, so
    // the result is true, but it is not stored again.
    assert!(mgr.store_announcement(a2));
    assert_eq!(mgr.announce_store.len(), 1);

    let other = Channel::new(45_678_901);
    let a3 = build_announcement(&other);
    assert!(mgr.store_announcement(a3));
    assert_eq!(mgr.announce_store.len(), 2);

    // A malformed record is reported false and not stored.
    let bad = ChannelAnnounce {
        salt: vec![0; 15],
        validation: SecureMessage { nonce: vec![0; 12], ciphertext: vec![1] },
    };
    assert!(!mgr.store_announcement(bad));
    assert_eq!(mgr.announce_store.len(), 2);
}

#[test]
fn store_announcement_phone_checks_lengths() {
    let mut mgr = SecureChannelManager::new();
    assert!(!mgr.store_announcement_phone(vec![0; 15], vec![0; 12], vec![1, 2, 3]));
    assert!(!mgr.store_announcement_phone(vec![0; 16], vec![0; 11], vec![1, 2, 3]));
    assert!(mgr.store_announcement_phone(vec![0; 16], vec![0; 12], vec![1, 2, 3]));
    // A duplicate salt is still a valid unit, only not stored again.
    assert!(mgr.store_announcement_phone(vec![0; 16], vec![9; 12], vec![4, 5]));
    assert_eq!(mgr.announce_store_phone.len(), 1);
}

#[test]
fn join_with_correct_pin_succeeds() {
    let mut mgr = SecureChannelManager::new();
    let pin = 76_543_210;
    let channel = Channel::new(pin);
    let ann = build_announcement(&channel);
    mgr.store_announcement(ann);

    assert!(mgr.join_with_PIN("76543210", 0));
    let joined = mgr.get_active_channel().expect("channel must be active");
    assert_eq!(joined.salt, channel.salt);
    assert_eq!(joined.key, channel.key);
    assert_eq!(mgr.tracker.failed_attempts, 0);
}

#[test]
fn join_accepts_surrounding_whitespace() {
    let mut mgr = SecureChannelManager::new();
    let channel = Channel::new(76_543_210);
    mgr.store_announcement(build_announcement(&channel));
    assert!(mgr.join_with_PIN("  76543210\n", 0));
}

#[test]
fn join_with_wrong_pin_fails_and_counts() {
    let mut mgr = SecureChannelManager::new();
    let channel = Channel::new(76_543_210);
    mgr.store_announcement(build_announcement(&channel));

    assert!(!mgr.join_with_PIN("11111111", 0));
    assert_eq!(mgr.tracker.failed_attempts, 1);
    assert!(mgr.get_active_channel().is_none());
}

#[test]
fn join_with_non_numeric_pin_counts_as_failure() {
    let mut mgr = SecureChannelManager::new();
    assert!(!mgr.join_with_PIN("not a pin", 0));
    assert_eq!(mgr.tracker.failed_attempts, 1);
    assert!(mgr.tracker.locked_until.is_none());
}

#[test]
fn third_failure_triggers_lockout() {
    let mut mgr = SecureChannelManager::new();
    let channel = Channel::new(76_543_210);
    mgr.store_announcement(build_announcement(&channel));

    assert!(!mgr.join_with_PIN("11111111", 0));
    assert!(!mgr.join_with_PIN("22222222", 100));
    assert!(!mgr.join_with_PIN("33333333", 200));
    assert_eq!(mgr.tracker.failed_attempts, 3);
    assert_eq!(mgr.tracker.locked_until, Some(200 + 10_000));
}

#[test]
fn lockout_blocks_even_the_correct_pin() {
    // A joiner submits an incorrect PIN three times; the third failure
    // triggers a lockout; a correct PIN one second later still fails;
    // submitted after the window it succeeds.
    let mut mgr = SecureChannelManager::new();
    let channel = Channel::new(76_543_210);
    mgr.store_announcement(build_announcement(&channel));

    assert!(!mgr.join_with_PIN("11111111", 0));
    assert!(!mgr.join_with_PIN("22222222", 0));
    assert!(!mgr.join_with_PIN("33333333", 0));
    assert_eq!(mgr.tracker.locked_until, Some(10_000));

    // 1 second later: locked, regardless of PIN correctness.
    assert!(!mgr.join_with_PIN("76543210", 1_000));
    assert_eq!(mgr.tracker.failed_attempts, 3);

    // After 11 seconds the window has elapsed: the lock clears, the
    // counter resets, and the correct PIN succeeds.
    assert!(mgr.join_with_PIN("76543210", 11_000));
    assert_eq!(mgr.tracker.failed_attempts, 0);
    assert!(mgr.tracker.locked_until.is_none());
}

#[test]
fn newest_announcement_wins() {
    let mut mgr = SecureChannelManager::new();
    let pin = 76_543_210;
    let older = Channel::new(pin);
    let newer = Channel::new(pin);
    mgr.store_announcement(build_announcement(&older));
    mgr.store_announcement(build_announcement(&newer));

    assert!(mgr.join_with_PIN("76543210", 0));
    let joined = mgr.get_active_channel().unwrap();
    assert_eq!(joined.salt, newer.salt);
}

#[test]
fn join_finds_mobile_announcements_too() {
    let mut mgr = SecureChannelManager::new();
    let pin = 76_543_210;
    let channel = Channel::new(pin);
    let ann = build_announcement(&channel);
    assert!(mgr.store_announcement_phone(
        ann.salt.clone(),
        ann.validation.nonce.clone(),
        ann.validation.ciphertext.clone()
    ));

    let found = mgr.try_find_matching_announce(pin).expect("must match");
    assert_eq!(found.0, channel.salt);
    assert_eq!(found.1, channel.key);
    assert!(mgr.try_find_matching_announce(pin + 1).is_none());

    assert!(mgr.join_with_PIN("76543210", 0));
    assert_eq!(mgr.get_active_channel().unwrap().key, channel.key);
}

#[test]
fn manager_pin_lifecycle() {
    let mut mgr = SecureChannelManager::new();
    assert_eq!(mgr.get_host_PIN(), None);
    assert_eq!(mgr.get_host_PIN_string(), "N/A");
    assert!(mgr.get_masked_host_PIN().is_none());

    let channel = mgr.create_new_channel();
    let pin = mgr.get_host_PIN().expect("pin set");
    assert!((10_000_000..100_000_000).contains(&pin));
    assert_eq!(mgr.get_host_PIN_string(), pin.to_string());
    let masked = mgr.get_masked_host_PIN().unwrap();
    assert_eq!(masked, format!("****{}", &pin.to_string()[4..]));
    assert_eq!(mgr.get_active_channel().unwrap().key, channel.key);

    let regenerated = mgr.regenerate_PIN();
    assert_eq!(mgr.get_active_channel().unwrap().key, regenerated.key);

    mgr.destroy_channel();
    assert!(mgr.get_active_channel().is_none());
    assert_eq!(mgr.get_host_PIN(), None);
}

#[test]
fn update_ui_pin_reports_or_destroys() {
    let mut mgr = SecureChannelManager::new();
    mgr.create_new_channel();
    let pin = mgr.get_host_PIN().unwrap();
    let (full, masked) = mgr.update_ui_PIN();
    assert_eq!(full, pin.to_string());
    assert_eq!(masked, format!("****{}", &pin.to_string()[4..]));

    mgr.host_pin = None;
    let (full, masked) = mgr.update_ui_PIN();
    assert_eq!(full, "N/A");
    assert_eq!(masked, "N/A");
    assert!(mgr.get_active_channel().is_none());
}

#[test]
fn mode_switches() {
    let mut mgr = SecureChannelManager::new();
    assert!(matches!(mgr.channel_mode, ChannelMode::Public));
    mgr.set_channel_mode_only(ChannelMode::Host);
    assert!(matches!(mgr.channel_mode, ChannelMode::Host));
    mgr.force_switch_to_public();
    assert!(matches!(mgr.channel_mode, ChannelMode::Public));
}

#[test]
fn qr_image_data_round_trip() {
    let mut mgr = SecureChannelManager::new();
    assert!(mgr.get_QR_image_data().is_none());
    mgr.set_QR_image_data(vec![1, 2, 3, 4]);
    assert_eq!(mgr.get_QR_image_data(), Some(vec![1, 2, 3, 4]));
}

#[test]
fn secure_message_fields_survive_manual_build() {
    let msg = SecureMessage { nonce: vec![0; 12], ciphertext: vec![1, 2, 3] };
    let ann = ChannelAnnounce { salt: vec![0; 16], validation: msg };
    assert_eq!(ann.salt.len(), 16);
    assert_eq!(ann.validation.nonce.len(), 12);
}

#[test]
fn desktop_store_is_searched_before_mobile() {
    let mut mgr = SecureChannelManager::new();
    let pin = 76_543_210;
    let desktop_channel = Channel::new(pin);
    let mobile_channel = Channel::new(pin);
    let mob = build_announcement(&mobile_channel);
    assert!(mgr.store_announcement_phone(
        mob.salt.clone(),
        mob.validation.nonce.clone(),
        mob.validation.ciphertext.clone()
    ));
    mgr.store_announcement(build_announcement(&desktop_channel));

    assert!(mgr.join_with_PIN("76543210", 0));
    // Both stores match, and the desktop store wins.
    assert_eq!(mgr.get_active_channel().unwrap().salt, desktop_channel.salt);
}
