use std::collections::HashMap;

use sha2::Digest;

use xenon::auth::{
    burn_verify, generate_invite_code, generate_session_token, grant_expiry, hash_password, hash_session_token,
    invite_code_from, invite_expiry, needs_renewal, session_expiry, session_token_from, verify_password, DAY,
};
use xenon::config::{ByteSize, Config, ConfigError, ConfigWarning, MEBIBYTE};
use xenon::files::{chunk_mime, is_utf8_text, max_body_bytes, UploadError, UploadMeter};
use xenon::ids::id_in;
use xenon::mentions::{mention_id, mentioned_ids, name_mentions, notice_body, recipients, NotifyUserPair};
use xenon::messages::{
    attaches, can_delete, can_post, page_in_order, page_range, pair_files, check_edit, check_message_body, cursor_from_query, parse_client_nonce,
    validate_post, Cursor, Incoming, MessageError,
};
use xenon::models::{GlobalRole, Notify, Permission, Permissions, Platform, Status, Visibility};
use xenon::rooms::{
    authorize_room_patch, can_invite, check_ban, check_grant, check_join, check_room_name, clean_room_name,
    may_delete_room, requires_invite, Refusal,
};
use xenon::sidecar::admit_sidecar;
use xenon::text::{is_blank, same_text, trim_text, username_prefix_pattern};
use xenon::users::{
    anonymized_names, check_close_other, check_close_own, check_set_role, check_transfer, page_limit, require_role,
};

const ALICE: u128 = 0x0192_3b5e_7c1a_7d2e_9f00_1122_3344_5566;
const BOB: u128 = 0x0192_3b5e_7c1a_7d2e_9f00_aabb_ccdd_eeff;
const ALICE_TEXT: &str = "01923b5e-7c1a-7d2e-9f00-112233445566";
const BOB_TEXT: &str = "01923b5e-7c1a-7d2e-9f00-aabbccddeeff";

// Permissions //

#[test]
fn grant_then_has() {
    let p = Permissions::none().grant(Permission::Post).grant(Permission::Ban);
    assert_eq!(p, Permissions(1 | 64));
    assert!(p.has(Permission::Post));
    assert!(p.has(Permission::Ban));
    assert!(!p.has(Permission::Grant));
}

#[test]
fn revoke_undoes_grant() {
    let p = Permissions(5);
    assert_eq!(p.grant(Permission::Attach).revoke(Permission::Attach), p);
    assert_eq!(Permissions(7).revoke(Permission::Attach), Permissions(5));
    assert_eq!(p.revoke(Permission::Attach), p);
}

#[test]
fn full_holds_every_permission() {
    let full = Permissions::full();
    assert_eq!(full, Permissions((1 << 14) - 1));
    assert!(full.has(Permission::Screenshare));
    assert!(full.contains(Permissions(1 << 13 | 1)));
    assert!(!Permissions::none().has(Permission::Post));
    assert_eq!(Permissions::default(), Permissions::none());
}

#[test]
fn contains_is_a_subset_test() {
    assert!(Permissions(0b1011).contains(Permissions(0b0011)));
    assert!(!Permissions(0b1011).contains(Permissions(0b0111)));
    assert!(Permissions(3).contains(Permissions::none()));
}

#[test]
fn from_list_sets_each_bit() {
    let p = Permissions::from_list(&[Permission::Post, Permission::Grant, Permission::Post]);
    assert_eq!(p, Permissions(1 | 128));
    assert_eq!(Permissions::from_list(&[]), Permissions::none());
}

#[test]
fn member_directed_permissions() {
    assert!(Permission::Ban.member_directed());
    assert!(!Permission::Post.member_directed());
}

#[test]
fn role_codes_round_trip() {
    for role in [GlobalRole::Owner, GlobalRole::Admin, GlobalRole::Member, GlobalRole::Visitor] {
        assert_eq!(GlobalRole::from_code(role.code()), Some(role));
    }
    for v in [Visibility::Public, Visibility::Locked, Visibility::Hidden] {
        assert_eq!(Visibility::from_code(v.code()), Some(v));
    }
    for n in [Notify::Never, Notify::Mentions, Notify::All] {
        assert_eq!(Notify::from_code(n.code()), Some(n));
    }
    for p in [Platform::Xbox, Platform::Steam] {
        assert_eq!(Platform::from_code(p.code()), Some(p));
    }
    for s in [Status::Online, Status::Busy, Status::Away, Status::Invisible] {
        assert_eq!(Status::from_code(s.code()), Some(s));
    }
    assert_eq!(GlobalRole::from_code(99), None);
}

// Text //

#[test]
fn blank_and_trim() {
    assert!(is_blank(""));
    assert!(is_blank(" \t\n\u{3000}"));
    assert!(!is_blank(" a "));
    assert_eq!(trim_text("  hello world \n"), "hello world");
    assert_eq!(trim_text("   "), "");
    assert!(same_text("abc", "abc"));
    assert!(!same_text("abc", "abd"));
}

#[test]
fn like_pattern_escapes_wildcards() {
    assert_eq!(username_prefix_pattern("al"), "al%");
    assert_eq!(username_prefix_pattern("a_b%c\\"), "a\\_b\\%c\\\\%");
}

// Mentions //

#[test]
fn mention_id_reads_a_hyphenated_uuid() {
    let text = format!("hi @{ALICE_TEXT}!");
    assert_eq!(mention_id(&text, 4), Some(ALICE));
    assert_eq!(mention_id("@not-a-uuid", 1), None);
}

#[test]
fn mentioned_ids_lists_each_account_once() {
    let body = format!("@{ALICE_TEXT} and @{BOB_TEXT} and again @{ALICE_TEXT}, @nobody");
    assert_eq!(mentioned_ids(&body), vec![ALICE, BOB]);
    assert_eq!(mentioned_ids("no mentions"), Vec::<u128>::new());
}

#[test]
fn name_mentions_swaps_known_ids() {
    let mut names = HashMap::new();
    names.insert(ALICE, "Alice".to_string());
    let body = format!("@{ALICE_TEXT} meet @{BOB_TEXT}");
    assert_eq!(name_mentions(&body, &names), format!("@Alice meet @{BOB_TEXT}"));
}

#[test]
fn recipients_follow_each_members_choice() {
    let carol: u128 = 3;
    let pairs = [
        NotifyUserPair { user_id: ALICE, notify: Notify::All },
        NotifyUserPair { user_id: BOB, notify: Notify::Mentions },
        NotifyUserPair { user_id: carol, notify: Notify::Never },
    ];
    assert_eq!(recipients(&pairs, 99, &[]), vec![ALICE]);
    assert_eq!(recipients(&pairs, 99, &[BOB, carol]), vec![ALICE, BOB]);
    assert_eq!(recipients(&pairs, ALICE, &[BOB]), vec![BOB]);
}

#[test]
fn notice_body_names_attachments() {
    assert_eq!(notice_body(Some("hi")), "hi");
    assert_eq!(notice_body(None), "Attachment(s)");
}

// Messages //

#[test]
fn validate_post_checks_in_order() {
    let one = Incoming { file_id: 1, spoiler: false };
    assert_eq!(validate_post(None, &[], 10, 100), Err(MessageError::NoContent));
    assert_eq!(validate_post(Some("x"), &[one, one], 1, 100), Err(MessageError::TooManyAttachments { max: 1 }));
    assert_eq!(validate_post(Some("toolong"), &[], 10, 3), Err(MessageError::BodyTooLong { max: 3 }));
    assert_eq!(validate_post(None, &[one, one], 10, 100), Err(MessageError::DuplicateAttachment));
    assert_eq!(validate_post(Some("ok"), &[one], 10, 100), Ok(()));
    assert_eq!(check_message_body("héllo", 5), Ok(()));
    assert_eq!(check_message_body("héllo!", 5), Err(MessageError::BodyTooLong { max: 5 }));
}

#[test]
fn post_and_delete_rights() {
    let post_only = Permissions::none().grant(Permission::Post);
    assert!(can_post(Some(post_only), false));
    assert!(!can_post(Some(post_only), true));
    assert!(can_post(Some(post_only.grant(Permission::Attach)), true));
    assert!(!can_post(None, false));
    assert!(can_delete(Some(Permissions::none()), 5, 5));
    assert!(!can_delete(Some(Permissions::none()), 5, 6));
    assert!(can_delete(Some(Permissions::none().grant(Permission::DeleteMsg)), 5, 6));
    assert!(can_delete(None, 5, 5));
    assert!(!can_delete(None, 5, 6));
}

#[test]
fn edit_rules() {
    assert_eq!(check_edit(1, 2, true, true), Err(MessageError::Forbidden));
    assert_eq!(check_edit(1, 1, false, false), Err(MessageError::EmptyEdit));
    assert_eq!(check_edit(1, 1, false, true), Ok(()));
    assert_eq!(check_edit(1, 1, true, false), Ok(()));
}

#[test]
fn cursors_from_query() {
    assert_eq!(cursor_from_query(None, None), Ok(Cursor::Latest));
    assert_eq!(cursor_from_query(Some(4), None), Ok(Cursor::After(4)));
    assert_eq!(cursor_from_query(None, Some(9)), Ok(Cursor::Before(9)));
    assert_eq!(cursor_from_query(Some(1), Some(2)), Err(MessageError::BothCursors));
    assert_eq!(Cursor::Latest.anchor(), (i64::MAX, true));
    assert_eq!(Cursor::After(3).anchor(), (3, false));
    assert_eq!(Cursor::Before(3).anchor(), (3, true));
}

#[test]
fn client_nonce_is_sixteen_hex_bytes() {
    let nonce = parse_client_nonce("000102030405060708090a0b0c0d0e0f").unwrap();
    assert_eq!(nonce, [0, 1, 2, 3, 4, 5, 6, 7, 8, 9, 10, 11, 12, 13, 14, 15]);
    assert_eq!(parse_client_nonce("zz"), Err(MessageError::NonceNotHex));
    assert_eq!(parse_client_nonce("0011"), Err(MessageError::NonceWrongLength));
}

#[test]
fn attaches_finds_a_file() {
    let files = [Incoming { file_id: 7, spoiler: true }, Incoming { file_id: 9, spoiler: false }];
    assert!(attaches(&files, 9));
    assert!(!attaches(&files, 8));
    assert!(id_in(&[1, 2, 3], 2));
    assert!(!id_in(&[], 2));
}

// Rooms //

#[test]
fn room_names() {
    assert_eq!(clean_room_name("  \t"), "");
    assert_eq!(clean_room_name(" lobby "), " lobby ");
    assert_eq!(check_room_name("abc", 3), Ok(()));
    assert_eq!(check_room_name("abcd", 3), Err(Refusal::NameTooLong { max: 3 }));
}

#[test]
fn room_patch_needs_rename_or_grant() {
    let rename = Permissions::none().grant(Permission::Rename);
    assert_eq!(authorize_room_patch(Some(rename), true, true, false), Ok(()));
    assert_eq!(authorize_room_patch(Some(rename), false, false, true), Err(Refusal::Forbidden));
    assert_eq!(authorize_room_patch(None, false, false, false), Err(Refusal::Forbidden));
    assert!(may_delete_room(None, true));
    assert!(!may_delete_room(Some(rename), false));
}

#[test]
fn joining_rooms() {
    assert_eq!(requires_invite(Some(Visibility::Public)), Some(false));
    assert_eq!(requires_invite(Some(Visibility::Hidden)), Some(true));
    assert_eq!(requires_invite(None), None);
    assert_eq!(check_join(Some(Visibility::Public), false, false), Ok(()));
    assert_eq!(check_join(Some(Visibility::Locked), false, false), Err(Refusal::Forbidden));
    assert_eq!(check_join(Some(Visibility::Locked), true, false), Ok(()));
    assert_eq!(check_join(Some(Visibility::Public), true, true), Err(Refusal::Forbidden));
    assert_eq!(check_join(None, true, false), Err(Refusal::Forbidden));
}

#[test]
fn grants_are_bounded_by_the_granter() {
    let granter = Permissions::none().grant(Permission::Grant).grant(Permission::Post);
    let member = Permissions::none().grant(Permission::Post);
    assert_eq!(check_grant(Some(granter), member, false, Some(member)), Ok(()));
    assert_eq!(check_grant(Some(granter), Permissions::full(), false, Some(member)), Err(Refusal::GrantBeyondOwn));
    assert_eq!(check_grant(Some(member), member, false, Some(member)), Err(Refusal::Forbidden));
    assert_eq!(check_grant(Some(granter), member, false, None), Err(Refusal::NotFound));
    assert_eq!(check_grant(Some(granter), member, false, Some(granter)), Err(Refusal::Forbidden));
    assert_eq!(check_grant(Some(granter), member, true, None), Ok(()));
    assert_eq!(check_grant(None, member, true, None), Err(Refusal::Forbidden));
}

#[test]
fn bans_and_invites() {
    let ban = Permissions::none().grant(Permission::Ban);
    assert_eq!(check_ban(Some(ban), false, 1, 2, None), Ok(()));
    assert_eq!(check_ban(Some(ban), false, 1, 1, None), Err(Refusal::SelfTarget));
    assert_eq!(check_ban(Some(ban), false, 1, 2, Some(ban)), Err(Refusal::Forbidden));
    assert_eq!(check_ban(None, false, 1, 2, None), Err(Refusal::Forbidden));
    assert_eq!(check_ban(None, true, 1, 2, None), Ok(()));
    let invite = Permissions::none().grant(Permission::Invite);
    assert_eq!(can_invite(Some(invite), 1, 2), Ok(()));
    assert_eq!(can_invite(Some(invite), 1, 1), Err(Refusal::SelfTarget));
    assert_eq!(can_invite(Some(Permissions::none()), 1, 2), Err(Refusal::Forbidden));
    assert_eq!(can_invite(None, 1, 2), Err(Refusal::Forbidden));
}

// Users //

#[test]
fn server_roles() {
    assert_eq!(require_role(GlobalRole::Admin, &[GlobalRole::Owner, GlobalRole::Admin]), Ok(()));
    assert_eq!(require_role(GlobalRole::Member, &[GlobalRole::Owner]), Err(Refusal::Forbidden));
    assert_eq!(check_set_role(GlobalRole::Owner, GlobalRole::Admin, GlobalRole::Member), Ok(()));
    assert_eq!(check_set_role(GlobalRole::Owner, GlobalRole::Member, GlobalRole::Owner), Err(Refusal::Forbidden));
    assert_eq!(check_set_role(GlobalRole::Admin, GlobalRole::Admin, GlobalRole::Member), Err(Refusal::Forbidden));
    assert_eq!(check_set_role(GlobalRole::Member, GlobalRole::Visitor, GlobalRole::Member), Err(Refusal::Forbidden));
    assert_eq!(check_close_other(GlobalRole::Admin, GlobalRole::Member), Ok(()));
    assert_eq!(check_close_other(GlobalRole::Admin, GlobalRole::Owner), Err(Refusal::Forbidden));
    assert_eq!(check_close_own(GlobalRole::Owner), Err(Refusal::Forbidden));
    assert_eq!(check_close_own(GlobalRole::Visitor), Ok(()));
    assert_eq!(check_transfer(GlobalRole::Owner, GlobalRole::Admin), Ok(()));
    assert_eq!(check_transfer(GlobalRole::Owner, GlobalRole::Owner), Err(Refusal::Forbidden));
    assert_eq!(check_transfer(GlobalRole::Admin, GlobalRole::Member), Err(Refusal::Forbidden));
}

#[test]
fn page_limits() {
    assert_eq!(page_limit(None, 25), 25);
    assert_eq!(page_limit(Some(0), 25), 1);
    assert_eq!(page_limit(Some(100), 25), 25);
    assert_eq!(page_limit(Some(10), 25), 10);
}

#[test]
fn anonymized_account_names() {
    let (username, display) = anonymized_names(ALICE);
    assert_eq!(username, "01923b5e7c1a7d2e9f00112233445566");
    assert_eq!(display, "Deleted User 01923b");
}

// Auth //

#[test]
fn session_token_hash_matches_presented_token() {
    let bytes: [u8; 32] = std::array::from_fn(|i| i as u8);
    let token = session_token_from(bytes);
    assert_eq!(token.secret, hex::encode(bytes));
    let expected: [u8; 32] = sha2::Sha256::digest(bytes).into();
    assert_eq!(token.hash, expected);
    assert_eq!(hex::encode(token.hash), "630dcd2966c4336691125448bbb25b4ff412a49c732db2c8abc1b8581bd710dd");
    assert_eq!(hash_session_token(&token.secret), Some(token.hash));
}

#[test]
fn generated_session_token_round_trips() {
    let token = generate_session_token();
    assert_eq!(token.secret.len(), 64);
    assert_eq!(hash_session_token(&token.secret), Some(token.hash));
    assert_eq!(hash_session_token("abcd"), None);
    assert_eq!(hash_session_token("not hex"), None);
}

#[test]
fn invite_codes_use_the_alphabet() {
    assert_eq!(invite_code_from(&[0, 9, 10, 35, 36, 71]), "09AZ0Z");
    let code = generate_invite_code();
    assert_eq!(code.len(), 12);
    assert!(code.chars().all(|c| c.is_ascii_digit() || c.is_ascii_uppercase()));
}

#[test]
fn passwords_verify_against_their_hash() {
    let hash = hash_password("correct horse").unwrap();
    assert_eq!(verify_password("correct horse", &hash).unwrap(), true);
    assert_eq!(verify_password("wrong", &hash).unwrap(), false);
    assert!(verify_password("x", "not a phc string").is_err());
    burn_verify("anything", &hash);
}

#[test]
fn session_times() {
    assert!(needs_renewal(1000, 0, 30, 1));
    assert!(!needs_renewal(29 * DAY, 0, 30, 1));
    assert!(needs_renewal(29 * DAY - 1, 0, 30, 1));
    assert_eq!(session_expiry(5, 30), 5 + 30 * DAY);
    assert_eq!(invite_expiry(10, Some(5)), Some(15));
    assert_eq!(invite_expiry(10, None), None);
    assert_eq!(invite_expiry(i64::MAX - 1, Some(5)), Some(i64::MAX));
    assert_eq!(invite_expiry(i64::MIN + 1, Some(-5)), Some(i64::MIN));
    assert_eq!(grant_expiry(10, Some(-3)), Some(7));
    assert_eq!(grant_expiry(10, None), None);
}

// Sidecar //

#[test]
fn sidecar_admission() {
    assert!(xenon::sidecar::matches("secret", "secret"));
    assert!(!xenon::sidecar::matches("secret", "secreT"));
    assert!(!xenon::sidecar::matches("secret", "secrets"));
    assert!(admit_sidecar("s3", Some("Bearer s3")));
    assert!(!admit_sidecar("s3", Some("Bearer s4")));
    assert!(!admit_sidecar("s3", Some("s3")));
    assert!(!admit_sidecar("s3", None));
    assert!(!admit_sidecar("", Some("Bearer ")));
}

// Config //

#[test]
fn default_config_is_valid() {
    let config = Config::default();
    assert_eq!(config.validate(true), Ok(()));
    assert_eq!(config.bind.port, 3000);
    assert_eq!(config.limits.file_bytes_max, ByteSize(25 * MEBIBYTE));
    assert!(!config.tls_configured());
    assert_eq!(config.database.idle_timeout(), Some(600));
    assert_eq!(config.database.broadcast_retry_delay(), 100);
}

#[test]
fn config_checks_report_the_first_problem() {
    let mut config = Config::default();
    assert_eq!(config.validate(false), Err(ConfigError::IpNotAddress));
    config.bind.port = 0;
    assert_eq!(config.validate(true), Err(ConfigError::PortZero));
    config.bind.port = 1;
    config.bind.certificate = Some("cert.pem".to_string());
    assert_eq!(config.validate(true), Err(ConfigError::KeyMissing));
    config.bind.key = Some("key.pem".to_string());
    assert!(config.tls_configured());
    config.session.renew_after_days_elapsed = 30;
    assert_eq!(config.validate(true), Err(ConfigError::RenewNotBeforeLifetime));
    config.session.renew_after_days_elapsed = 1;
    config.logging.level = "loud".to_string();
    assert_eq!(config.validate(true), Err(ConfigError::UnknownLoggingLevel));
    config.version = 9;
    assert_eq!(config.validate(true), Err(ConfigError::UnsupportedVersion { found: 9 }));
}

#[test]
fn config_warnings_name_empty_settings() {
    let mut config = Config::default();
    assert!(config.warnings().is_empty());
    config.info.name = String::new();
    config.logging.file = String::new();
    assert_eq!(config.warnings(), vec![ConfigWarning::LogFileUnset, ConfigWarning::NoName]);
}

// Files //

#[test]
fn text_detection_and_mime() {
    assert!(is_utf8_text(b"hello"));
    assert!(is_utf8_text("h\u{e9}".as_bytes()));
    assert!(is_utf8_text(&[b'a', 0xc3]));
    assert!(!is_utf8_text(b"a\0b"));
    assert!(!is_utf8_text(&[0xff, 0xfe, 0x41]));
    assert_eq!(chunk_mime(b"plain words"), "text/plain");
    assert_eq!(chunk_mime(&[0x89, b'P', b'N', b'G', 0x0d, 0x0a, 0x1a, 0x0a, 0, 0, 0, 0]), "image/png");
    assert_eq!(chunk_mime(&[0xff, 0x00, 0x13]), "application/octet-stream");
    assert_eq!(max_body_bytes(10), 10 + MEBIBYTE as usize);
}

#[test]
fn upload_meter_counts_hashes_and_refuses() {
    let mut meter = UploadMeter::new(8);
    assert_eq!(meter.take_chunk(b"abcd"), Ok(()));
    assert_eq!(meter.mime, "text/plain");
    assert_eq!(meter.take_chunk(b"efgh"), Ok(()));
    assert_eq!(meter.take_chunk(b"i"), Err(UploadError::TooLarge { max: 8 }));
    let (size, digest) = meter.finish().unwrap();
    assert_eq!(size, 8);
    let expected: [u8; 32] = sha2::Sha256::digest(b"abcdefgh").into();
    assert_eq!(digest, expected);
    assert_eq!(UploadMeter::new(8).finish().err(), Some(UploadError::Empty));
}

// Pages //

fn message(seq: i64, id: u128) -> xenon::models::Message {
    xenon::models::Message {
        seq,
        id,
        room_id: 1,
        author_id: 2,
        body: None,
        created_at: seq * 10,
        edited_at: None,
        deleted_at: None,
    }
}

#[test]
fn older_pages_are_reversed_to_run_oldest_first() {
    let page = page_in_order(vec![message(9, 1), message(7, 2), message(4, 3)], true);
    let seqs: Vec<i64> = page.iter().map(|m| m.seq).collect();
    assert_eq!(seqs, vec![4, 7, 9]);
    assert_eq!(page_range(&page), Some((4, 9)));
    let newer = page_in_order(vec![message(10, 1), message(11, 2)], false);
    let seqs: Vec<i64> = newer.iter().map(|m| m.seq).collect();
    assert_eq!(seqs, vec![10, 11]);
    assert_eq!(page_range(&[]), None);
}

#[test]
fn pair_files_gives_each_message_its_files() {
    let mut files: HashMap<u128, Vec<&str>> = HashMap::new();
    files.insert(1, vec!["a.png", "b.txt"]);
    files.insert(3, vec!["c.zip"]);
    let paired = pair_files(vec![message(1, 1), message(2, 2), message(3, 3)], files);
    assert_eq!(paired.len(), 3);
    assert_eq!(paired[0].1, vec!["a.png", "b.txt"]);
    assert!(paired[1].1.is_empty());
    assert_eq!(paired[2].0.seq, 3);
    assert_eq!(paired[2].1, vec!["c.zip"]);
}

#[test]
fn negative_limit_refuses_every_chunk() {
    let mut meter = UploadMeter::new(-1);
    assert_eq!(meter.take_chunk(b"a"), Err(UploadError::TooLarge { max: -1 }));
    assert_eq!(meter.read_bytes, 0);
    assert_eq!(meter.finish().err(), Some(UploadError::Empty));
}
