use gqg::database::{from_id, to_id, Database, DatabaseFile, DbError, Friend, Identity};
use gqg::{remove_whitespace, validate_file_name, PublicKey};

#[test]
fn remove_whitespace_drops_unicode_spaces() {
    let mut s = " a\tb\nc\u{a0}d\u{3000}e\r".to_string();
    remove_whitespace(&mut s);
    assert_eq!(s, "abcde");
}

#[test]
fn validate_file_name_rules() {
    assert!(validate_file_name("a"));
    assert!(validate_file_name("report.final.pdf"));
    assert!(validate_file_name(&"b".repeat(32)));
    assert!(!validate_file_name(&"b".repeat(33)));
    assert!(!validate_file_name(""));
    assert!(!validate_file_name("dir/file"));
    assert!(!validate_file_name("dir\\file"));
    assert!(!validate_file_name("a..b"));
    assert!(!validate_file_name(".."));
}

#[test]
fn identifier_round_trip() {
    let pk = PublicKey { bytes: [7u8; 32] };
    let id = to_id(&pk);
    assert_eq!(id, format!("[GQG1-ID:{}]", base64::encode([7u8; 32])));
    assert_eq!(from_id(&id), Ok(pk));
    assert_eq!(from_id(&"[GQG1-ID:AAAA]".to_string()), Err(DbError::InvalidIdentifier));
    assert_eq!(from_id(&"[GQG1-ID]".to_string()), Err(DbError::InvalidIdentifier));
    assert_eq!(from_id(&"GQG1-ID:AAAA]".to_string()), Err(DbError::InvalidIdentifier));
}

#[test]
fn store_starts_with_default_identity() {
    let db = Database::open(None);
    assert!(db.is_dirty());
    assert_eq!(db.get_identities().len(), 1);
    let me = db.get_active_identity();
    assert_eq!(me.name, "default");
    let sk = me.private_key().unwrap();
    assert_eq!(me.get_private_key(), sk);
    let id = me.get_public_id();
    assert!(id.starts_with("[GQG1-ID:"));
    assert_eq!(me.public_id(), Some(id));
}

#[test]
fn identities_and_friends() {
    let mut db = Database::open(Some(DatabaseFile::new()));
    db.mark_saved();
    assert_eq!(db.add_identity("work".to_string()), Ok(()));
    assert!(db.is_dirty());
    assert_eq!(db.add_identity("work".to_string()), Err(DbError::IdentityExists));
    assert_eq!(db.set_active_identity("nobody"), Err(DbError::NoSuchIdentity));
    assert_eq!(db.set_active_identity("work"), Ok(()));
    assert_eq!(db.get_active_identity().name, "work");

    let pk = PublicKey { bytes: [5u8; 32] };
    let id = to_id(&pk);
    assert_eq!(db.add_friend("bob".to_string(), "junk".to_string()), Err(DbError::InvalidIdentifier));
    assert_eq!(db.add_friend("bob".to_string(), id.clone()), Ok(()));
    assert_eq!(db.add_friend("bob".to_string(), id.clone()), Err(DbError::FriendExists));
    let bob: &Friend = db.find_friend("bob").unwrap();
    assert_eq!(bob.get_public_id(), id);
    assert_eq!(bob.get_public_key(), pk);
    assert_eq!(bob.public_key(), Some(pk));
    assert_eq!(db.find_friend_by_key(&pk).unwrap().name, "bob");
    assert!(db.find_friend_by_key(&PublicKey { bytes: [6u8; 32] }).is_none());
    assert_eq!(db.get_friends().len(), 1);
    assert_eq!(db.del_friend("bob".to_string()), Ok(()));
    assert_eq!(db.del_friend("bob".to_string()), Err(DbError::NoSuchFriend));
    assert!(db.find_friend("bob").is_none());
}

#[test]
fn loaded_store_is_kept() {
    let mut file = DatabaseFile::new();
    file.identity.push(Identity { name: "me".to_string(), key: base64::encode([1u8; 32]) });
    file.misc.active_identity = "me".to_string();
    let db = Database::open(Some(file));
    assert!(!db.is_dirty());
    assert_eq!(db.get_identities().len(), 1);
    assert_eq!(db.find_identity("me").unwrap().name, "me");
    assert!(db.find_identity("you").is_none());
    let bad = Identity { name: "x".to_string(), key: "!!".to_string() };
    assert!(bad.private_key().is_none());
    assert!(bad.public_id().is_none());
}
