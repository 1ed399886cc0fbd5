//! The editor's key-value store, and how credentials are written to it.
//!
//! The store is a table of rows, each a key with a value. A field is written
//! by looking its key up first: a key that the table does not hold gets a new
//! row, a key that it holds gets its value overwritten. So a write never adds
//! a second row for a key.
//!
//! The table itself lies in a database file that this crate does not open.
//! `CursorAuthManager::update_auth` names the rows to write and `choose_write`
//! decides between insert and update; `IdentityStore` is the table as
//! mathematics sees it, on which the effect of those writes is proved.

use crate::error::AuthError;
use crate::paths::{resolution, storage_path, unresolved_text, Environment, PathRole, Platform, Resolution};
use crate::text::{optional_text, same_text};
use vstd::prelude::*;

verus! {

/// A row of the store.
#[derive(Debug, Clone, PartialEq, Eq)]
pub struct IdentityRecord {
    pub key: String,
    pub value: String,
}

/// A row, as mathematics: its key and its value.
pub type Row = (Seq<char>, Seq<char>);

impl View for IdentityRecord {
    type V = Row;

    open spec fn view(&self) -> Row {
        (self.key@, self.value@)
    }
}

/// The rows of a list of records.
pub open spec fn rows_of(records: Seq<IdentityRecord>) -> Seq<Row> {
    records.map_values(|r: IdentityRecord| r@)
}

/// How many rows have this key.
pub open spec fn count(rows: Seq<Row>, key: Seq<char>) -> nat
    decreases rows.len(),
{
    if rows.len() == 0 {
        0
    } else {
        count(rows.drop_last(), key) + if rows.last().0 == key {
            1nat
        } else {
            0nat
        }
    }
}

/// The value that the table gives for a key: that of the first row with it.
pub open spec fn lookup(rows: Seq<Row>, key: Seq<char>) -> Option<Seq<char>>
    decreases rows.len(),
{
    if rows.len() == 0 {
        None
    } else {
        match lookup(rows.drop_last(), key) {
            Some(value) => Some(value),
            None => if rows.last().0 == key {
                Some(rows.last().1)
            } else {
                None
            },
        }
    }
}

/// Whether no key has two rows.
pub open spec fn keys_unique(rows: Seq<Row>) -> bool {
    forall|key: Seq<char>| count(rows, key) <= 1
}

/// The two ways of writing a field.
#[derive(Debug, Clone, Copy, PartialEq, Eq)]
pub enum WriteKind {
    /// Add a row.
    Insert,
    /// Overwrite the value of the rows that have the key.
    Update,
}

/// The way to write a field whose key has so many rows already.
pub open spec fn write_kind_for(existing: int) -> WriteKind {
    if existing == 0 {
        WriteKind::Insert
    } else {
        WriteKind::Update
    }
}

/// Decides how to write a field, from the number of rows that its key has.
pub fn choose_write(existing: i64) -> (r: WriteKind)
    ensures
        r == write_kind_for(existing as int),
{
    if existing == 0 {
        WriteKind::Insert
    } else {
        WriteKind::Update
    }
}

/// A row after `value` was written over the rows of `key`.
pub open spec fn rewritten(row: Row, key: Seq<char>, value: Seq<char>) -> Row {
    if row.0 == key {
        (key, value)
    } else {
        row
    }
}

/// The table after `value` was written over the rows of `key`.
pub open spec fn overwritten(rows: Seq<Row>, key: Seq<char>, value: Seq<char>) -> Seq<Row> {
    Seq::new(rows.len(), |i: int| rewritten(rows[i], key, value))
}

/// The table after `value` was written under `key`.
pub open spec fn upserted(rows: Seq<Row>, key: Seq<char>, value: Seq<char>) -> Seq<Row> {
    match write_kind_for(count(rows, key) as int) {
        WriteKind::Insert => rows.push((key, value)),
        WriteKind::Update => overwritten(rows, key, value),
    }
}

/// The table after each of `writes` was written, one after the other.
pub open spec fn applied(rows: Seq<Row>, writes: Seq<Row>) -> Seq<Row>
    decreases writes.len(),
{
    if writes.len() == 0 {
        rows
    } else {
        upserted(applied(rows, writes.drop_last()), writes.last().0, writes.last().1)
    }
}

/// A table without rows holds no key.
pub proof fn lemma_empty_table(key: Seq<char>)
    ensures
        count(Seq::<Row>::empty(), key) == 0,
        lookup(Seq::<Row>::empty(), key) is None,
        keys_unique(Seq::<Row>::empty()),
{
    assert forall|k: Seq<char>| count(Seq::<Row>::empty(), k) <= 1 by {}
}

/// A key without rows has no value, and a key with rows has one.
pub proof fn lemma_lookup_follows_count(rows: Seq<Row>, key: Seq<char>)
    ensures
        count(rows, key) == 0 <==> lookup(rows, key) is None,
    decreases rows.len(),
{
    if rows.len() > 0 {
        lemma_lookup_follows_count(rows.drop_last(), key);
    }
}

/// Overwriting the rows of one key keeps every row's key: each key has the
/// rows it had; the overwritten key has the new value, every other key the
/// value it had.
proof fn lemma_overwritten(rows: Seq<Row>, key: Seq<char>, value: Seq<char>, other: Seq<char>)
    ensures
        count(overwritten(rows, key, value), other) == count(rows, other),
        other != key ==> lookup(overwritten(rows, key, value), other) == lookup(rows, other),
        count(rows, key) > 0 ==> lookup(overwritten(rows, key, value), key) == Some(value),
    decreases rows.len(),
{
    let after = overwritten(rows, key, value);
    if rows.len() > 0 {
        lemma_overwritten(rows.drop_last(), key, value, other);
        lemma_overwritten(rows.drop_last(), key, value, key);
        assert(after.drop_last() =~= overwritten(rows.drop_last(), key, value));
        assert(after.last() == rewritten(rows.last(), key, value));
        lemma_lookup_follows_count(rows.drop_last(), key);
        lemma_lookup_follows_count(overwritten(rows.drop_last(), key, value), key);
    }
}

/// What a write does: the key written has the value written, and one row if
/// it had none before, else as many as before; every other key has the rows
/// and the value that it had.
pub proof fn lemma_upserted(rows: Seq<Row>, key: Seq<char>, value: Seq<char>, other: Seq<char>)
    ensures
        lookup(upserted(rows, key, value), key) == Some(value),
        count(upserted(rows, key, value), key) == if count(rows, key) == 0 {
            1
        } else {
            count(rows, key)
        },
        other != key ==> count(upserted(rows, key, value), other) == count(rows, other),
        other != key ==> lookup(upserted(rows, key, value), other) == lookup(rows, other),
{
    let after = upserted(rows, key, value);
    if count(rows, key) == 0 {
        assert(after.drop_last() =~= rows);
        assert(after.last() == (key, value));
        lemma_lookup_follows_count(rows, key);
    } else {
        lemma_overwritten(rows, key, value, key);
        lemma_overwritten(rows, key, value, other);
    }
}

/// A write never makes a second row for a key.
pub proof fn lemma_upserted_keeps_keys_unique(rows: Seq<Row>, key: Seq<char>, value: Seq<char>)
    requires
        keys_unique(rows),
    ensures
        keys_unique(upserted(rows, key, value)),
        count(upserted(rows, key, value), key) == 1,
{
    assert forall|k: Seq<char>| count(upserted(rows, key, value), k) <= 1 by {
        lemma_upserted(rows, key, value, k);
        assert(count(rows, k) <= 1);
        assert(count(rows, key) <= 1);
    }
    lemma_upserted(rows, key, value, key);
    assert(count(rows, key) <= 1);
}

/// Writing one list and then another is writing the two in a row.
pub proof fn lemma_applied_in_turn(rows: Seq<Row>, first: Seq<Row>, second: Seq<Row>)
    ensures
        applied(rows, first + second) == applied(applied(rows, first), second),
    decreases second.len(),
{
    if second.len() == 0 {
        assert(first + second =~= first);
    } else {
        lemma_applied_in_turn(rows, first, second.drop_last());
        assert((first + second).drop_last() =~= first + second.drop_last());
    }
}

/// The editor's table of rows, held in memory.
#[derive(Debug)]
pub struct IdentityStore {
    rows: Vec<IdentityRecord>,
}

impl View for IdentityStore {
    type V = Seq<Row>;

    closed spec fn view(&self) -> Seq<Row> {
        rows_of(self.rows@)
    }
}

impl IdentityStore {
    /// The table without rows.
    pub fn new() -> (r: Self)
        ensures
            r@ == Seq::<Row>::empty(),
    {
        let r = IdentityStore { rows: Vec::new() };
        assert(r@ =~= Seq::<Row>::empty());
        r
    }

    /// The number of rows.
    pub fn len(&self) -> (r: usize)
        ensures
            r == self@.len(),
    {
        self.rows.len()
    }

    /// The number of rows that have `key`.
    pub fn count(&self, key: &str) -> (r: usize)
        ensures
            r == count(self@, key@),
    {
        let mut found: usize = 0;
        let mut i: usize = 0;
        while i < self.rows.len()
            invariant
                i <= self.rows.len(),
                found <= i,
                found == count(self@.take(i as int), key@),
            decreases self.rows.len() - i,
        {
            assert(self@.take(i + 1).drop_last() =~= self@.take(i as int));
            if same_text(self.rows[i].key.as_str(), key) {
                found += 1;
            }
            i += 1;
        }
        assert(self@.take(self.rows.len() as int) =~= self@);
        found
    }

    /// The value that the table gives for `key`.
    pub fn get(&self, key: &str) -> (r: Option<String>)
        ensures
            optional_text(r) == lookup(self@, key@),
    {
        let mut i: usize = 0;
        while i < self.rows.len()
            invariant
                i <= self.rows.len(),
                lookup(self@.take(i as int), key@) is None,
            decreases self.rows.len() - i,
        {
            assert(self@.take(i + 1).drop_last() =~= self@.take(i as int));
            if same_text(self.rows[i].key.as_str(), key) {
                proof {
                    lemma_lookup_of_prefix(self@, i + 1, key@);
                }
                return Some(self.rows[i].value.clone());
            }
            i += 1;
        }
        assert(self@.take(self.rows.len() as int) =~= self@);
        None
    }

    /// Writes `value` under `key`: into a new row where no row has the key,
    /// else over the value of the rows that have it.
    pub fn upsert(&mut self, key: String, value: String)
        ensures
            final(self)@ == upserted(old(self)@, key@, value@),
    {
        if self.count(key.as_str()) == 0 {
            self.rows.push(IdentityRecord { key, value });
            assert(self@ =~= upserted(old(self)@, key@, value@));
        } else {
            let mut next: Vec<IdentityRecord> = Vec::new();
            let mut i: usize = 0;
            while i < self.rows.len()
                invariant
                    i <= self.rows.len(),
                    next@.len() == i,
                    forall|j: int| 0 <= j < i ==> (#[trigger] next@[j])@ == rewritten(self@[j], key@, value@),
                decreases self.rows.len() - i,
            {
                if same_text(self.rows[i].key.as_str(), key.as_str()) {
                    next.push(IdentityRecord { key: key.clone(), value: value.clone() });
                } else {
                    next.push(IdentityRecord { key: self.rows[i].key.clone(), value: self.rows[i].value.clone() });
                }
                i += 1;
            }
            self.rows = next;
            assert(self@ =~= upserted(old(self)@, key@, value@));
        }
    }

    /// Writes each of `writes`, one after the other.
    pub fn apply(&mut self, writes: &Vec<IdentityRecord>)
        ensures
            final(self)@ == applied(old(self)@, rows_of(writes@)),
    {
        let mut i: usize = 0;
        while i < writes.len()
            invariant
                i <= writes.len(),
                self@ == applied(old(self)@, rows_of(writes@.take(i as int))),
            decreases writes.len() - i,
        {
            proof {
                let upto = rows_of(writes@.take(i + 1));
                assert(upto.drop_last() =~= rows_of(writes@.take(i as int)));
                assert(upto.last() == writes@[i as int]@);
            }
            self.upsert(writes[i].key.clone(), writes[i].value.clone());
            i += 1;
        }
        assert(writes@.take(writes.len() as int) =~= writes@);
    }
}

/// The value of a key that the first rows of a table hold is its value in
/// the table.
proof fn lemma_lookup_of_prefix(rows: Seq<Row>, n: int, key: Seq<char>)
    requires
        0 <= n <= rows.len(),
        lookup(rows.take(n), key) is Some,
    ensures
        lookup(rows, key) == lookup(rows.take(n), key),
    decreases rows.len() - n,
{
    if n < rows.len() {
        assert(rows.take(n + 1).drop_last() =~= rows.take(n));
        lemma_lookup_of_prefix(rows, n + 1, key);
    } else {
        assert(rows.take(n) =~= rows);
    }
}

/// The key of the row that marks the editor as signed in.
pub open spec fn sign_up_key() -> Seq<char> {
    "cursorAuth/cachedSignUpType"@
}

/// The value of the row that marks the editor as signed in.
pub open spec fn signed_in() -> Seq<char> {
    "Auth_0"@
}

/// The key of the row that holds the account's address.
pub open spec fn email_key() -> Seq<char> {
    "cursorAuth/cachedEmail"@
}

/// The key of the row that holds the access token.
pub open spec fn access_key() -> Seq<char> {
    "cursorAuth/accessToken"@
}

/// The key of the row that holds the refresh token.
pub open spec fn refresh_key() -> Seq<char> {
    "cursorAuth/refreshToken"@
}

/// The write of a field that may be absent: none for an absent field.
pub open spec fn optional_write(key: Seq<char>, value: Option<Seq<char>>) -> Seq<Row> {
    match value {
        Some(value) => seq![(key, value)],
        None => Seq::empty(),
    }
}

/// The writes of a credential update, in their order: the mark of being
/// signed in, then each field that is present.
pub open spec fn planned_writes(
    email: Option<Seq<char>>,
    access_token: Option<Seq<char>>,
    refresh_token: Option<Seq<char>>,
) -> Seq<Row> {
    seq![(sign_up_key(), signed_in())] + optional_write(email_key(), email) + optional_write(
        access_key(),
        access_token,
    ) + optional_write(refresh_key(), refresh_token)
}

/// Writes credentials to the editor's store.
#[derive(Debug, Clone, PartialEq, Eq)]
pub struct CursorAuthManager {
    db_path: String,
}

impl CursorAuthManager {
    /// The place of the store, as text.
    pub closed spec fn location(&self) -> Seq<char> {
        self.db_path@
    }

    /// A manager for the store of this platform. Fails with `Environment`
    /// where the environment does not tell the place of the store.
    pub fn new(platform: Platform, env: &Environment) -> (r: Result<Self, AuthError>)
        ensures
            match r {
                Ok(manager) => resolution(platform, PathRole::KeyValueStore, *env) == Resolution::At(
                    manager.location(),
                ),
                Err(e) => {
                    &&& resolution(platform, PathRole::KeyValueStore, *env) is Unknown
                    &&& e matches AuthError::Environment(text)
                    &&& text@ == unresolved_text(platform, PathRole::KeyValueStore)
                },
            },
    {
        match storage_path(platform, PathRole::KeyValueStore, env) {
            Ok(db_path) => Ok(CursorAuthManager { db_path }),
            Err(e) => Err(e),
        }
    }

    /// The place of the store.
    pub fn db_path(&self) -> (r: &str)
        ensures
            r@ == self.location(),
    {
        self.db_path.as_str()
    }

    /// Names the rows that a credential update writes, in the order in which
    /// they are to be written.
    ///
    /// An update needs a field: with no address and no token it fails with
    /// `NoUpdates`, and nothing is to be written. Otherwise the row that
    /// marks the editor as signed in is written first, then each field that
    /// is present; a field that is absent is not written, and so stays as
    /// the store has it.
    pub fn update_auth(
        &mut self,
        email: Option<String>,
        access_token: Option<String>,
        refresh_token: Option<String>,
    ) -> (r: Result<Vec<IdentityRecord>, AuthError>)
        ensures
            *final(self) == *old(self),
            match r {
                Ok(writes) => {
                    &&& email is Some || access_token is Some || refresh_token is Some
                    &&& rows_of(writes@) == planned_writes(
                        optional_text(email),
                        optional_text(access_token),
                        optional_text(refresh_token),
                    )
                },
                Err(e) => e is NoUpdates && email is None && access_token is None && refresh_token is None,
            },
    {
        if email.is_none() && access_token.is_none() && refresh_token.is_none() {
            return Err(AuthError::NoUpdates);
        }
        let mut writes: Vec<IdentityRecord> = Vec::new();
        writes.push(IdentityRecord { key: "cursorAuth/cachedSignUpType".to_owned(), value: "Auth_0".to_owned() });
        if let Some(email) = email {
            writes.push(IdentityRecord { key: "cursorAuth/cachedEmail".to_owned(), value: email });
        }
        if let Some(access_token) = access_token {
            writes.push(IdentityRecord { key: "cursorAuth/accessToken".to_owned(), value: access_token });
        }
        if let Some(refresh_token) = refresh_token {
            writes.push(IdentityRecord { key: "cursorAuth/refreshToken".to_owned(), value: refresh_token });
        }
        assert(rows_of(writes@) =~= planned_writes(
            optional_text(email),
            optional_text(access_token),
            optional_text(refresh_token),
        ));
        Ok(writes)
    }
}

/// What a write that may be absent leaves of a key: a field that is present
/// has one row, with its value; a field that is absent has what it had.
pub open spec fn field_after(before: Seq<Row>, after: Seq<Row>, key: Seq<char>, value: Option<Seq<char>>) -> bool {
    match value {
        Some(value) => count(after, key) == 1 && lookup(after, key) == Some(value),
        None => count(after, key) == count(before, key) && lookup(after, key) == lookup(before, key),
    }
}

/// Whether a key is one of the four that a credential update may write.
pub open spec fn is_credential_key(key: Seq<char>) -> bool {
    key == sign_up_key() || key == email_key() || key == access_key() || key == refresh_key()
}

/// Whether `after` gives every key but the four of the credentials the rows
/// and the value that `before` gives it.
pub open spec fn others_kept(before: Seq<Row>, after: Seq<Row>) -> bool {
    forall|key: Seq<char>|
        !is_credential_key(key) ==> #[trigger] count(after, key) == count(before, key) && lookup(after, key)
            == lookup(before, key)
}

/// The four keys of the credentials differ from one another.
proof fn lemma_keys_differ()
    ensures
        sign_up_key() != email_key(),
        sign_up_key() != access_key(),
        sign_up_key() != refresh_key(),
        email_key() != access_key(),
        email_key() != refresh_key(),
        access_key() != refresh_key(),
{
    reveal_strlit("cursorAuth/cachedSignUpType");
    reveal_strlit("cursorAuth/cachedEmail");
    reveal_strlit("cursorAuth/accessToken");
    reveal_strlit("cursorAuth/refreshToken");
    assert(sign_up_key()[17] != email_key()[17]);
    assert(sign_up_key()[11] != access_key()[11]);
    assert(sign_up_key()[11] != refresh_key()[11]);
    assert(email_key()[11] != access_key()[11]);
    assert(email_key()[11] != refresh_key()[11]);
    assert(access_key()[11] != refresh_key()[11]);
}

/// What one write that may be absent does to a table without double keys.
proof fn lemma_optional_write(rows: Seq<Row>, key: Seq<char>, value: Option<Seq<char>>)
    requires
        keys_unique(rows),
    ensures
        keys_unique(applied(rows, optional_write(key, value))),
        field_after(rows, applied(rows, optional_write(key, value)), key, value),
        forall|other: Seq<char>|
            other != key ==> #[trigger] count(applied(rows, optional_write(key, value)), other) == count(
                rows,
                other,
            ) && lookup(applied(rows, optional_write(key, value)), other) == lookup(rows, other),
{
    let writes = optional_write(key, value);
    match value {
        Some(v) => {
            assert(writes.drop_last() =~= Seq::<Row>::empty());
            assert(applied(rows, writes.drop_last()) == rows);
            assert(applied(rows, writes) == upserted(rows, key, v));
            lemma_upserted_keeps_keys_unique(rows, key, v);
            lemma_upserted(rows, key, v, key);
            assert forall|other: Seq<char>| other != key implies #[trigger] count(applied(rows, writes), other)
                == count(rows, other) && lookup(applied(rows, writes), other) == lookup(rows, other) by {
                lemma_upserted(rows, key, v, other);
            }
        },
        None => {},
    }
}

/// On a store in which no key has two rows, a credential update leaves one
/// row for the mark of being signed in and one row for each field that it
/// was given, each with the value given. A field that it was not given, and
/// every key that is none of the credentials, stays as it was. No key has
/// two rows afterwards.
pub proof fn lemma_update_writes_each_field(
    rows: Seq<Row>,
    email: Option<Seq<char>>,
    access_token: Option<Seq<char>>,
    refresh_token: Option<Seq<char>>,
)
    requires
        keys_unique(rows),
    ensures
        ({
            let after = applied(rows, planned_writes(email, access_token, refresh_token));
            &&& keys_unique(after)
            &&& field_after(rows, after, sign_up_key(), Some(signed_in()))
            &&& field_after(rows, after, email_key(), email)
            &&& field_after(rows, after, access_key(), access_token)
            &&& field_after(rows, after, refresh_key(), refresh_token)
            &&& others_kept(rows, after)
        }),
{
    lemma_keys_differ();
    let w0 = seq![(sign_up_key(), signed_in())];
    let w1 = optional_write(email_key(), email);
    let w2 = optional_write(access_key(), access_token);
    let w3 = optional_write(refresh_key(), refresh_token);
    assert(w0 =~= optional_write(sign_up_key(), Some(signed_in())));
    let r1 = applied(rows, w0);
    let r2 = applied(r1, w1);
    let r3 = applied(r2, w2);
    let r4 = applied(r3, w3);
    lemma_applied_in_turn(rows, w0, w1);
    lemma_applied_in_turn(rows, w0 + w1, w2);
    lemma_applied_in_turn(rows, w0 + w1 + w2, w3);
    assert(applied(rows, planned_writes(email, access_token, refresh_token)) == r4);
    lemma_optional_write(rows, sign_up_key(), Some(signed_in()));
    lemma_optional_write(r1, email_key(), email);
    lemma_optional_write(r2, access_key(), access_token);
    lemma_optional_write(r3, refresh_key(), refresh_token);
    assert forall|key: Seq<char>| !is_credential_key(key) implies #[trigger] count(r4, key) == count(rows, key)
        && lookup(r4, key) == lookup(rows, key) by {
        assert(count(r1, key) == count(rows, key));
        assert(count(r2, key) == count(r1, key));
        assert(count(r3, key) == count(r2, key));
        assert(count(r4, key) == count(r3, key));
    }
    assert(count(r2, sign_up_key()) == count(r1, sign_up_key()));
    assert(count(r3, sign_up_key()) == count(r2, sign_up_key()));
    assert(count(r4, sign_up_key()) == count(r3, sign_up_key()));
    assert(count(r1, email_key()) == count(rows, email_key()));
    assert(count(r3, email_key()) == count(r2, email_key()));
    assert(count(r4, email_key()) == count(r3, email_key()));
    assert(count(r1, access_key()) == count(rows, access_key()));
    assert(count(r2, access_key()) == count(r1, access_key()));
    assert(count(r4, access_key()) == count(r3, access_key()));
    assert(count(r1, refresh_key()) == count(rows, refresh_key()));
    assert(count(r2, refresh_key()) == count(r1, refresh_key()));
    assert(count(r3, refresh_key()) == count(r2, refresh_key()));
}

/// What two updates in a row leave of a field: the value of the second
/// where it gave one, else that of the first where it gave one, else what
/// the store had; and one row wherever either gave a value.
pub open spec fn field_after_two(
    before: Seq<Row>,
    after: Seq<Row>,
    key: Seq<char>,
    first: Option<Seq<char>>,
    second: Option<Seq<char>>,
) -> bool {
    match second {
        Some(value) => count(after, key) == 1 && lookup(after, key) == Some(value),
        None => field_after(before, after, key, first),
    }
}

/// Of two credential updates in a row the later one wins: each field has the
/// value that the second update gave it, and where the second gave none, the
/// value that the first one left. No key has two rows afterwards.
pub proof fn lemma_later_update_wins(
    rows: Seq<Row>,
    first_email: Option<Seq<char>>,
    first_access: Option<Seq<char>>,
    first_refresh: Option<Seq<char>>,
    second_email: Option<Seq<char>>,
    second_access: Option<Seq<char>>,
    second_refresh: Option<Seq<char>>,
)
    requires
        keys_unique(rows),
    ensures
        ({
            let between = applied(rows, planned_writes(first_email, first_access, first_refresh));
            let after = applied(between, planned_writes(second_email, second_access, second_refresh));
            &&& keys_unique(after)
            &&& field_after(rows, after, sign_up_key(), Some(signed_in()))
            &&& field_after_two(rows, after, email_key(), first_email, second_email)
            &&& field_after_two(rows, after, access_key(), first_access, second_access)
            &&& field_after_two(rows, after, refresh_key(), first_refresh, second_refresh)
            &&& others_kept(rows, after)
        }),
{
    let between = applied(rows, planned_writes(first_email, first_access, first_refresh));
    let after = applied(between, planned_writes(second_email, second_access, second_refresh));
    lemma_update_writes_each_field(rows, first_email, first_access, first_refresh);
    lemma_update_writes_each_field(between, second_email, second_access, second_refresh);
    assert forall|key: Seq<char>| !is_credential_key(key) implies #[trigger] count(after, key) == count(rows, key)
        && lookup(after, key) == lookup(rows, key) by {
        assert(count(between, key) == count(rows, key));
        assert(count(after, key) == count(between, key));
    }
}

} // verus!
