//! The record store of own identities (secret keys) and friends (public identifiers), kept
//! in memory; reading and writing the file that holds it is left to the caller.
use vstd::prelude::*;
use crate::keys::{PublicKey, SecretKey, PUBLIC_KEY_LEN, SECRET_KEY_LEN};
use crate::outside::{base64_of, base64_decoded, base64_encode, base64_decode, public_key_of,
    derive_public_key, random_secret_key};
use crate::seqs::append_all;
use crate::text::{chars_of, string_of};

verus! {

/// Header of a public identifier.
pub const HEADER_IDENTITY: &'static str = "[GQG1-ID";

/// Name of the identity that a new store starts with.
pub const DEFAULT_IDENTITY: &'static str = "default";

/// Why the store refused a request.
#[derive(PartialEq, Eq, Debug, Clone, Copy, Structural)]
pub enum DbError {
    InvalidIdentifier,
    NoSuchIdentity,
    IdentityExists,
    FriendExists,
    NoSuchFriend,
}

/// An own key pair under a name; `key` is the base64 text of the secret key.
#[derive(Clone, Debug)]
pub struct Identity {
    pub name: String,
    pub key: String,
}

/// A friend's public identifier under a name.
#[derive(Clone, Debug)]
pub struct Friend {
    pub name: String,
    pub key: String,
}

/// Settings of the store.
#[derive(Clone, Debug)]
pub struct Misc {
    pub active_identity: String,
}

/// Everything that the store keeps.
#[derive(Clone, Debug)]
pub struct DatabaseFile {
    pub misc: Misc,
    pub identity: Vec<Identity>,
    pub friend: Vec<Friend>,
}

/// The store, with a mark for changes not yet written out.
pub struct Database {
    file: DatabaseFile,
    dirty: bool,
}

/// The public identifier text of a public key.
pub open spec fn id_text(pk: Seq<u8>) -> Seq<char> {
    HEADER_IDENTITY@ + seq![':'] + base64_of(pk) + seq![']']
}

/// The public key that an identifier text names, if it is well formed.
pub open spec fn id_key(s: Seq<char>) -> Option<Seq<u8>> {
    let h = HEADER_IDENTITY@.len() as int;
    if HEADER_IDENTITY@.is_prefix_of(s) && s.len() >= h + 2 && s[h] == ':' && s.last() == ']' {
        match base64_decoded(s.subrange(h + 1, s.len() - 1)) {
            Some(b) => if b.len() == PUBLIC_KEY_LEN {
                Some(b)
            } else {
                None
            },
            None => None,
        }
    } else {
        None
    }
}

/// The secret key that the base64 text of an identity holds, if it is well formed.
pub open spec fn secret_key_bytes(s: Seq<char>) -> Option<Seq<u8>> {
    match base64_decoded(s) {
        Some(b) => if b.len() == SECRET_KEY_LEN {
            Some(b)
        } else {
            None
        },
        None => None,
    }
}

/// `i` is the first position whose identity has the given name.
pub open spec fn first_identity(ids: Seq<Identity>, name: Seq<char>, i: int) -> bool {
    0 <= i < ids.len() && ids[i].name@ == name && forall|j: int| 0 <= j < i ==> ids[j].name@ != name
}

/// Some identity has the given name.
pub open spec fn has_identity(ids: Seq<Identity>, name: Seq<char>) -> bool {
    exists|i: int| 0 <= i < ids.len() && ids[i].name@ == name
}

/// `i` is the first position whose friend has the given name.
pub open spec fn first_friend(fs: Seq<Friend>, name: Seq<char>, i: int) -> bool {
    0 <= i < fs.len() && fs[i].name@ == name && forall|j: int| 0 <= j < i ==> fs[j].name@ != name
}

/// Some friend has the given name.
pub open spec fn has_friend(fs: Seq<Friend>, name: Seq<char>) -> bool {
    exists|i: int| 0 <= i < fs.len() && fs[i].name@ == name
}

/// `i` is the first position whose friend has the given identifier text.
pub open spec fn first_friend_with_id(fs: Seq<Friend>, id: Seq<char>, i: int) -> bool {
    0 <= i < fs.len() && fs[i].key@ == id && forall|j: int| 0 <= j < i ==> fs[j].key@ != id
}

fn same_text(a: &str, b: &str) -> (r: bool)
    ensures
        r == (a@ == b@),
{
    a.to_owned() == b.to_owned()
}

/// The public identifier text of a public key.
pub fn to_id(pk: &PublicKey) -> (r: String)
    ensures
        r@ == id_text(pk.bytes@),
{
    let mut out = chars_of(HEADER_IDENTITY);
    out.push(':');
    let body = base64_encode(pk.bytes.as_slice());
    append_all(&mut out, body.as_slice());
    out.push(']');
    string_of(out.as_slice())
}

/// The public key that an identifier text names.
pub fn from_id(id: &String) -> (r: Result<PublicKey, DbError>)
    ensures
        match r {
            Ok(pk) => id_key(id@) == Some(pk.bytes@),
            Err(e) => id_key(id@) is None && e == DbError::InvalidIdentifier,
        },
{
    let s = chars_of(id.as_str());
    let h = chars_of(HEADER_IDENTITY);
    let n = h.len();
    if !crate::seqs::has_prefix(s.as_slice(), h.as_slice()) || s.len() - n < 2 || s[n] != ':'
        || s[s.len() - 1] != ']' {
        return Err(DbError::InvalidIdentifier);
    }
    let body = crate::seqs::copy_range(s.as_slice(), n + 1, s.len() - 1);
    match base64_decode(body.as_slice()) {
        Some(raw) => {
            if raw.len() == PUBLIC_KEY_LEN {
                Ok(PublicKey::from_slice(raw.as_slice()))
            } else {
                Err(DbError::InvalidIdentifier)
            }
        },
        None => Err(DbError::InvalidIdentifier),
    }
}

impl Identity {
    /// The secret key of this identity.
    pub fn get_private_key(&self) -> (r: SecretKey)
        requires
            secret_key_bytes(self.key@) is Some,
        ensures
            Some(r.bytes@) == secret_key_bytes(self.key@),
    {
        let s = chars_of(self.key.as_str());
        let raw = base64_decode(s.as_slice()).unwrap();
        SecretKey::from_slice(raw.as_slice())
    }

    /// The secret key of this identity, or `None` where its key text is not the base64 of
    /// a secret key.
    pub fn private_key(&self) -> (r: Option<SecretKey>)
        ensures
            match r {
                Some(k) => Some(k.bytes@) == secret_key_bytes(self.key@),
                None => secret_key_bytes(self.key@) is None,
            },
    {
        let s = chars_of(self.key.as_str());
        match base64_decode(s.as_slice()) {
            Some(raw) => if raw.len() == SECRET_KEY_LEN {
                Some(self.get_private_key())
            } else {
                None
            },
            None => None,
        }
    }

    /// The public identifier of this identity.
    pub fn get_public_id(&self) -> (r: String)
        requires
            secret_key_bytes(self.key@) is Some,
        ensures
            r@ == id_text(public_key_of(secret_key_bytes(self.key@)->0)),
    {
        let sk = self.get_private_key();
        to_id(&derive_public_key(&sk))
    }

    /// The public identifier of this identity, or `None` where its key text is not the
    /// base64 of a secret key.
    pub fn public_id(&self) -> (r: Option<String>)
        ensures
            match r {
                Some(t) => secret_key_bytes(self.key@) is Some
                    && t@ == id_text(public_key_of(secret_key_bytes(self.key@)->0)),
                None => secret_key_bytes(self.key@) is None,
            },
    {
        match self.private_key() {
            Some(_) => Some(self.get_public_id()),
            None => None,
        }
    }
}

impl Friend {
    /// The public key that this friend's identifier names.
    pub fn get_public_key(&self) -> (r: PublicKey)
        requires
            id_key(self.key@) is Some,
        ensures
            Some(r.bytes@) == id_key(self.key@),
    {
        from_id(&self.key).unwrap()
    }

    /// The public key that this friend's identifier names, or `None` where it is not
    /// well formed.
    pub fn public_key(&self) -> (r: Option<PublicKey>)
        ensures
            match r {
                Some(pk) => Some(pk.bytes@) == id_key(self.key@),
                None => id_key(self.key@) is None,
            },
    {
        match from_id(&self.key) {
            Ok(_) => Some(self.get_public_key()),
            Err(_) => None,
        }
    }

    /// This friend's public identifier text.
    pub fn get_public_id(&self) -> (r: &str)
        ensures
            r@ == self.key@,
    {
        self.key.as_str()
    }
}

impl DatabaseFile {
    /// An empty store whose active identity is the default one.
    pub fn new() -> (r: DatabaseFile)
        ensures
            r.misc.active_identity@ == DEFAULT_IDENTITY@,
            r.identity@.len() == 0,
            r.friend@.len() == 0,
    {
        DatabaseFile {
            identity: Vec::new(),
            friend: Vec::new(),
            misc: Misc { active_identity: DEFAULT_IDENTITY.to_owned() },
        }
    }
}

impl Database {
    /// The identities, in order.
    pub closed spec fn identities(&self) -> Seq<Identity> {
        self.file.identity@
    }

    /// The friends, in order.
    pub closed spec fn friends(&self) -> Seq<Friend> {
        self.file.friend@
    }

    /// The name of the active identity.
    pub closed spec fn active(&self) -> Seq<char> {
        self.file.misc.active_identity@
    }

    /// Some change has not been written out yet.
    pub closed spec fn dirty(&self) -> bool {
        self.dirty
    }

    /// The store as read from its file, with nothing yet to write out.
    pub fn from_file(file: DatabaseFile) -> (r: Database)
        ensures
            r.identities() == file.identity@,
            r.friends() == file.friend@,
            r.active() == file.misc.active_identity@,
            !r.dirty(),
    {
        Database { file, dirty: false }
    }

    /// The store as read from its file (or an empty one where there is no file yet), with
    /// an identity named `default` added where it holds none.
    pub fn open(file: Option<DatabaseFile>) -> (r: Database)
        ensures
            r.identities().len() > 0,
            r.friends() == (match file {
                Some(f) => f.friend@,
                None => Seq::<Friend>::empty(),
            }),
            r.active() == (match file {
                Some(f) => f.misc.active_identity@,
                None => DEFAULT_IDENTITY@,
            }),
            match file {
                Some(f) => if f.identity@.len() > 0 {
                    r.identities() == f.identity@ && !r.dirty()
                } else {
                    r.identities().len() == 1 && r.identities()[0].name@ == DEFAULT_IDENTITY@ && r.dirty()
                },
                None => r.identities().len() == 1 && r.identities()[0].name@ == DEFAULT_IDENTITY@
                    && r.dirty(),
            },
            (match file {
                Some(f) => f.identity@.len() == 0,
                None => true,
            }) ==> exists|k: Seq<u8>| k.len() == SECRET_KEY_LEN && r.identities()[0].key@ == base64_of(k),
    {
        let f = match file {
            Some(f) => f,
            None => DatabaseFile::new(),
        };
        let mut db = Database::from_file(f);
        if db.file.identity.len() == 0 {
            let _added = db.add_identity(DEFAULT_IDENTITY.to_owned());
        }
        db
    }

    /// Whether some change has not been written out yet.
    pub fn is_dirty(&self) -> (r: bool)
        ensures
            r == self.dirty(),
    {
        self.dirty
    }

    /// Notes that every change has been written out.
    pub fn mark_saved(&mut self)
        ensures
            final(self).identities() == old(self).identities(),
            final(self).friends() == old(self).friends(),
            final(self).active() == old(self).active(),
            !final(self).dirty(),
    {
        self.dirty = false;
    }

    /// Everything that the store keeps, to be written out.
    pub fn file(&self) -> (r: &DatabaseFile)
        ensures
            r.identity@ == self.identities(),
            r.friend@ == self.friends(),
            r.misc.active_identity@ == self.active(),
    {
        &self.file
    }

    /// The active identity.
    pub fn get_active_identity(&self) -> (r: &Identity)
        requires
            has_identity(self.identities(), self.active()),
        ensures
            exists|i: int| first_identity(self.identities(), self.active(), i) && *r == self.identities()[i],
    {
        self.find_identity(self.file.misc.active_identity.as_str()).unwrap()
    }

    /// Makes the identity with the given name the active one.
    pub fn set_active_identity(&mut self, name: &str) -> (r: Result<(), DbError>)
        ensures
            final(self).identities() == old(self).identities(),
            final(self).friends() == old(self).friends(),
            has_identity(old(self).identities(), name@) ==> r is Ok && final(self).active() == name@
                && final(self).dirty(),
            !has_identity(old(self).identities(), name@) ==> r == Err::<(), DbError>(DbError::NoSuchIdentity)
                && final(self).active() == old(self).active() && final(self).dirty() == old(self).dirty(),
    {
        if self.find_identity(name).is_none() {
            return Err(DbError::NoSuchIdentity);
        }
        self.file.misc.active_identity = name.to_owned();
        self.dirty = true;
        Ok(())
    }

    fn validate_name(_name: &str) -> (r: Result<(), DbError>)
        ensures
            r is Ok,
    {
        Ok(())
    }

    fn validate_id(id: &String) -> (r: Result<(), DbError>)
        ensures
            r is Ok <==> id_key(id@) is Some,
            r is Err ==> r == Err::<(), DbError>(DbError::InvalidIdentifier),
    {
        match from_id(id) {
            Ok(_) => Ok(()),
            Err(e) => Err(e),
        }
    }

    /// The identities, in order.
    pub fn get_identities(&self) -> (r: &Vec<Identity>)
        ensures
            r@ == self.identities(),
    {
        &self.file.identity
    }

    /// The first identity with the given name.
    pub fn find_identity(&self, name: &str) -> (r: Option<&Identity>)
        ensures
            match r {
                Some(x) => exists|i: int| first_identity(self.identities(), name@, i) && *x == self.identities()[i],
                None => !has_identity(self.identities(), name@),
            },
    {
        let ids = &self.file.identity;
        let mut i: usize = 0;
        while i < ids.len()
            invariant
                i <= ids@.len(),
                ids@ == self.identities(),
                forall|j: int| 0 <= j < i ==> ids@[j].name@ != name@,
            decreases ids@.len() - i,
        {
            if same_text(ids[i].name.as_str(), name) {
                assert(first_identity(ids@, name@, i as int));
                return Some(&ids[i]);
            }
            i = i + 1;
        }
        None
    }

    /// Adds an identity with a fresh random secret key under a name that no identity has yet.
    pub fn add_identity(&mut self, name: String) -> (r: Result<(), DbError>)
        ensures
            final(self).friends() == old(self).friends(),
            final(self).active() == old(self).active(),
            has_identity(old(self).identities(), name@) ==> r == Err::<(), DbError>(DbError::IdentityExists)
                && final(self).identities() == old(self).identities()
                && final(self).dirty() == old(self).dirty(),
            !has_identity(old(self).identities(), name@) ==> r is Ok && final(self).dirty()
                && final(self).identities().len() == old(self).identities().len() + 1
                && final(self).identities().drop_last() == old(self).identities()
                && final(self).identities().last().name@ == name@
                && exists|k: Seq<u8>| k.len() == SECRET_KEY_LEN
                    && final(self).identities().last().key@ == base64_of(k),
    {
        match Self::validate_name(name.as_str()) {
            Ok(()) => {},
            Err(e) => {
                return Err(e);
            },
        }
        if self.find_identity(name.as_str()).is_some() {
            return Err(DbError::IdentityExists);
        }
        let key = random_secret_key();
        let text = base64_encode(key.bytes.as_slice());
        self.file.identity.push(Identity { name, key: string_of(text.as_slice()) });
        self.dirty = true;
        Ok(())
    }

    /// The friends, in order.
    pub fn get_friends(&self) -> (r: &Vec<Friend>)
        ensures
            r@ == self.friends(),
    {
        &self.file.friend
    }

    /// The first friend with the given name.
    pub fn find_friend(&self, name: &str) -> (r: Option<&Friend>)
        ensures
            match r {
                Some(x) => exists|i: int| first_friend(self.friends(), name@, i) && *x == self.friends()[i],
                None => !has_friend(self.friends(), name@),
            },
    {
        let fs = &self.file.friend;
        let mut i: usize = 0;
        while i < fs.len()
            invariant
                i <= fs@.len(),
                fs@ == self.friends(),
                forall|j: int| 0 <= j < i ==> fs@[j].name@ != name@,
            decreases fs@.len() - i,
        {
            if same_text(fs[i].name.as_str(), name) {
                assert(first_friend(fs@, name@, i as int));
                return Some(&fs[i]);
            }
            i = i + 1;
        }
        None
    }

    /// The first friend whose identifier names the given public key.
    pub fn find_friend_by_key(&self, key: &PublicKey) -> (r: Option<&Friend>)
        ensures
            match r {
                Some(x) => exists|i: int| first_friend_with_id(self.friends(), id_text(key.bytes@), i)
                    && *x == self.friends()[i],
                None => forall|i: int| 0 <= i < self.friends().len() ==> self.friends()[i].key@ != id_text(key.bytes@),
            },
    {
        let id = to_id(key);
        let fs = &self.file.friend;
        let mut i: usize = 0;
        while i < fs.len()
            invariant
                i <= fs@.len(),
                fs@ == self.friends(),
                id@ == id_text(key.bytes@),
                forall|j: int| 0 <= j < i ==> fs@[j].key@ != id@,
            decreases fs@.len() - i,
        {
            if same_text(fs[i].key.as_str(), id.as_str()) {
                assert(first_friend_with_id(fs@, id@, i as int));
                return Some(&fs[i]);
            }
            i = i + 1;
        }
        None
    }

    /// Adds a friend under a name that no friend has yet, with a well-formed identifier.
    pub fn add_friend(&mut self, name: String, key: String) -> (r: Result<(), DbError>)
        ensures
            final(self).identities() == old(self).identities(),
            final(self).active() == old(self).active(),
            has_friend(old(self).friends(), name@) ==> r == Err::<(), DbError>(DbError::FriendExists),
            !has_friend(old(self).friends(), name@) && id_key(key@) is None
                ==> r == Err::<(), DbError>(DbError::InvalidIdentifier),
            r is Err ==> final(self).friends() == old(self).friends() && final(self).dirty() == old(self).dirty(),
            !has_friend(old(self).friends(), name@) && id_key(key@) is Some ==> r is Ok
                && final(self).dirty()
                && final(self).friends() == old(self).friends().push(Friend { name, key }),
    {
        match Self::validate_name(name.as_str()) {
            Ok(()) => {},
            Err(e) => {
                return Err(e);
            },
        }
        if self.find_friend(name.as_str()).is_some() {
            return Err(DbError::FriendExists);
        }
        match Self::validate_id(&key) {
            Ok(()) => {},
            Err(e) => {
                return Err(e);
            },
        }
        self.file.friend.push(Friend { name, key });
        self.dirty = true;
        Ok(())
    }

    /// Removes the first friend with the given name.
    pub fn del_friend(&mut self, name: String) -> (r: Result<(), DbError>)
        ensures
            final(self).identities() == old(self).identities(),
            final(self).active() == old(self).active(),
            !has_friend(old(self).friends(), name@) ==> r == Err::<(), DbError>(DbError::NoSuchFriend)
                && final(self).friends() == old(self).friends() && final(self).dirty() == old(self).dirty(),
            has_friend(old(self).friends(), name@) ==> r is Ok && final(self).dirty() && exists|i: int|
                first_friend(old(self).friends(), name@, i) && final(self).friends() == old(self).friends().remove(i),
    {
        let mut i: usize = 0;
        while i < self.file.friend.len()
            invariant
                i <= self.file.friend@.len(),
                self.file.friend@ == old(self).friends(),
                self.file == old(self).file,
                self.dirty == old(self).dirty,
                forall|j: int| 0 <= j < i ==> self.file.friend@[j].name@ != name@,
            decreases self.file.friend@.len() - i,
        {
            if same_text(self.file.friend[i].name.as_str(), name.as_str()) {
                assert(first_friend(old(self).friends(), name@, i as int));
                let _removed = self.file.friend.remove(i);
                self.dirty = true;
                return Ok(());
            }
            i = i + 1;
        }
        Err(DbError::NoSuchFriend)
    }
}

} // verus!
