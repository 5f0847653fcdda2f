//! The key-value storage layer: how records are keyed, the protocol of the
//! storage service, and the store itself.
use vstd::prelude::*;
use vstd::utf8::{decode_utf8, encode_utf8, valid_utf8};
use crate::byte_table::ByteTable;
use crate::error::GatewayError;

verus! {

/// What joins a table name and a record id into a storage key.
const CONCAT: &'static str = "#";

/// The storage key of the record `id` in `table`: the table name, `#`,
/// then the id.
pub open spec fn storage_key_of(table: Seq<char>, id: Seq<char>) -> Seq<char> {
    table + seq!['#'] + id
}

/// The storage key of `key` in `table`.
pub fn make_storage_key(table: &str, key: &str) -> (r: String)
    ensures
        r@ == storage_key_of(table@, key@),
{
    let mut s = String::from_str(table);
    proof {
        reveal_strlit("#");
    }
    s.append(CONCAT);
    s.append(key);
    proof {
        assert(s@ =~= table@ + seq!['#'] + key@);
    }
    s
}

/// A record kept in the store, in the table named by its type, under its
/// unique id.
pub trait Storable {
    spec fn table_name_spec() -> Seq<char>;

    spec fn unique_id_spec(&self) -> Seq<char>;

    fn table_name() -> (r: &'static str)
        ensures
            r@ == Self::table_name_spec(),
    ;

    fn unique_id(&self) -> (r: String)
        ensures
            r@ == self.unique_id_spec(),
    ;

    /// The key the record is stored under.
    fn storage_key(&self) -> (r: String)
        ensures
            r@ == storage_key_of(Self::table_name_spec(), self.unique_id_spec()),
    {
        let id = self.unique_id();
        make_storage_key(Self::table_name(), id.as_str())
    }

    /// The key a record with id `key` is stored under.
    fn concat_key(key: &str) -> (r: String)
        ensures
            r@ == storage_key_of(Self::table_name_spec(), key@),
    {
        make_storage_key(Self::table_name(), key)
    }
}

/// Credentials a storage client may be opened with.
pub trait DBCredentials {
}

/// A key-value store that the storage client can work over.
pub trait DBCompatibleClient {
    type T: DBCredentials;

    fn init(db_name: &str, credentials: Option<Self::T>) -> Result<Self, GatewayError> where
        Self: Sized,
    ;

    fn get_value(&self, key: &str) -> Result<Option<Vec<u8>>, GatewayError>;

    fn put_value(&mut self, key: &str, value: &[u8]) -> Result<(), GatewayError>;

    fn delete_entry(&mut self, key: &str) -> Result<(), GatewayError>;

    fn list_entries(&self) -> Result<Vec<(String, Vec<u8>)>, GatewayError>;

    fn list_entries_with_prefix(&self, prefix: &str) -> Result<Vec<(String, Vec<u8>)>, GatewayError>;
}

/// Credentials of a RocksDB store (none are needed).
pub struct RocksDBCredentials {}

impl DBCredentials for RocksDBCredentials {
}

/// Credentials of the local storage service (none are needed).
pub struct LocalServiceCredentials {}

impl DBCredentials for LocalServiceCredentials {
}

pub struct GetRequest {
    pub key: Vec<u8>,
}

pub struct GetResponse {
    pub value: Option<Vec<u8>>,
}

pub struct PutRequest {
    pub key: Vec<u8>,
    pub value: Vec<u8>,
}

pub struct PutResponse {}

pub struct DeleteRequest {
    pub key: Vec<u8>,
}

pub struct DeleteResponse {}

pub struct ListRequest {}

/// Every entry of the store, keys decoded as UTF-8.
pub struct ListResponse {
    pub map: Vec<(String, Vec<u8>)>,
}

pub struct ListByPrefixRequest {
    pub prefix: String,
}

/// The entries whose key starts with the requested prefix.
pub struct ListByPrefixResponse {
    pub map: Vec<(String, Vec<u8>)>,
}

/// `String::from_utf8`: std documents that it succeeds exactly when the
/// bytes are valid UTF-8, with a string of the characters they encode.
#[verifier::external_body]
fn string_from_utf8(bytes: Vec<u8>) -> (r: Option<String>)
    ensures
        r is Some <==> valid_utf8(bytes@),
        r matches Some(s) ==> s@ == decode_utf8(bytes@),
{
    match String::from_utf8(bytes) {
        Ok(s) => Some(s),
        Err(_) => None,
    }
}

/// Whether `s` starts with `prefix`.
pub fn starts_with_bytes(s: &Vec<u8>, prefix: &[u8]) -> (r: bool)
    ensures
        r == (prefix@.len() <= s@.len() && s@.subrange(0, prefix@.len() as int) == prefix@),
{
    if prefix.len() > s.len() {
        return false;
    }
    let mut i: usize = 0;
    while i < prefix.len()
        invariant
            i <= prefix@.len() <= s@.len(),
            forall|j: int| 0 <= j < i ==> s@[j] == prefix@[j],
        decreases prefix@.len() - i,
    {
        if s[i] != prefix[i] {
            proof {
                assert(s@.subrange(0, prefix@.len() as int)[i as int] != prefix@[i as int]);
            }
            return false;
        }
        i = i + 1;
    }
    proof {
        assert(s@.subrange(0, prefix@.len() as int) =~= prefix@);
    }
    true
}

/// The entries of `keys`/`values` (in order) whose key starts with
/// `prefix`, keys decoded as UTF-8.
pub open spec fn entries_with_prefix(
    keys: Seq<Seq<u8>>,
    values: Seq<Vec<u8>>,
    prefix: Seq<u8>,
) -> Seq<(Seq<char>, Seq<u8>)>
    decreases keys.len(),
{
    if keys.len() == 0 {
        Seq::empty()
    } else {
        let rest = entries_with_prefix(keys.drop_last(), values.drop_last(), prefix);
        let k = keys.last();
        if prefix.len() <= k.len() && k.subrange(0, prefix.len() as int) == prefix {
            rest.push((decode_utf8(k), values.last()@))
        } else {
            rest
        }
    }
}

/// The views of a list of entries.
pub open spec fn entry_views(es: Seq<(String, Vec<u8>)>) -> Seq<(Seq<char>, Seq<u8>)> {
    es.map_values(|e: (String, Vec<u8>)| (e.0@, e.1@))
}

/// The in-memory store behind the storage service: byte keys to byte
/// values.
pub struct KvStore {
    table: ByteTable<Vec<u8>>,
}

impl KvStore {
    /// The stored entries.
    pub closed spec fn entries(&self) -> Map<Seq<u8>, Seq<u8>> {
        self.table.map().map_values(|v: Vec<u8>| v@)
    }

    /// The keys, in insertion order.
    pub closed spec fn keys(&self) -> Seq<Seq<u8>> {
        self.table.key_seq()
    }

    /// The values, in the order of `keys`.
    pub closed spec fn values(&self) -> Seq<Vec<u8>> {
        self.table.value_seq()
    }

    /// An empty store.
    pub fn new() -> (r: Self)
        ensures
            r.entries() == Map::<Seq<u8>, Seq<u8>>::empty(),
            r.keys().len() == 0,
    {
        let t = ByteTable::new();
        proof {
            assert(t.map().map_values(|v: Vec<u8>| v@) =~= Map::<Seq<u8>, Seq<u8>>::empty());
        }
        KvStore { table: t }
    }

    /// The value stored under the requested key, if any.
    pub fn get(&self, request: GetRequest) -> (r: GetResponse)
        ensures
            match r.value {
                Some(v) => self.entries().contains_key(request.key@) && v@ == self.entries()[request.key@],
                None => !self.entries().contains_key(request.key@),
            },
    {
        match self.table.get(&request.key) {
            Some(v) => GetResponse { value: Some(crate::model::clone_bytes(v)) },
            None => GetResponse { value: None },
        }
    }

    /// Stores the requested value under the requested key.
    pub fn put(&mut self, request: PutRequest) -> (r: PutResponse)
        ensures
            final(self).entries() == old(self).entries().insert(request.key@, request.value@),
    {
        let ghost k = request.key@;
        let ghost v = request.value@;
        self.table.insert(request.key, request.value);
        proof {
            assert(self.entries() =~= old(self).entries().insert(k, v));
        }
        PutResponse {}
    }

    /// Removes the requested key.
    pub fn delete(&mut self, request: DeleteRequest) -> (r: DeleteResponse)
        ensures
            final(self).entries() == old(self).entries().remove(request.key@),
    {
        self.table.remove(&request.key);
        proof {
            assert(self.entries() =~= old(self).entries().remove(request.key@));
        }
        DeleteResponse {}
    }

    /// Every entry, in key order of insertion; fails when a key is not
    /// valid UTF-8.
    pub fn list(&self) -> (r: Result<ListResponse, GatewayError>)
        ensures
            r is Ok <==> forall|i: int| 0 <= i < self.keys().len() ==> valid_utf8(#[trigger] self.keys()[i]),
            r matches Err(e) ==> e == GatewayError::InvalidUtf8,
            r matches Ok(resp) ==> {
                &&& resp.map@.len() == self.keys().len()
                &&& forall|i: int| 0 <= i < self.keys().len() ==> #[trigger] entry_views(resp.map@)[i] == (
                    decode_utf8(self.keys()[i]),
                    self.values()[i]@,
                )
            },
    {
        proof {
            self.table.lemma_lengths();
        }
        let mut out: Vec<(String, Vec<u8>)> = Vec::new();
        let mut i: usize = 0;
        while i < self.table.len()
            invariant
                i <= self.keys().len(),
                self.keys().len() == self.values().len(),
                out@.len() == i,
                forall|j: int| 0 <= j < i ==> valid_utf8(#[trigger] self.keys()[j]),
                forall|j: int| 0 <= j < i ==> #[trigger] entry_views(out@)[j] == (
                    decode_utf8(self.keys()[j]),
                    self.values()[j]@,
                ),
            decreases self.keys().len() - i,
        {
            let (k, v) = self.table.entry(i);
            let ghost before = out@;
            match string_from_utf8(crate::model::clone_bytes(k)) {
                Some(s) => {
                    out.push((s, crate::model::clone_bytes(v)));
                    proof {
                        assert(entry_views(out@) =~= entry_views(before).push((decode_utf8(k@), v@)));
                    }
                },
                None => {
                    return Err(GatewayError::InvalidUtf8);
                },
            }
            i = i + 1;
        }
        Ok(ListResponse { map: out })
    }

    /// The entries whose key starts with the requested prefix, in key
    /// order of insertion; fails when any key is not valid UTF-8.
    pub fn list_by_prefix(&self, request: ListByPrefixRequest) -> (r: Result<ListByPrefixResponse, GatewayError>)
        ensures
            r is Ok <==> forall|i: int| 0 <= i < self.keys().len() ==> valid_utf8(#[trigger] self.keys()[i]),
            r matches Err(e) ==> e == GatewayError::InvalidUtf8,
            r matches Ok(resp) ==> entry_views(resp.map@) == entries_with_prefix(
                self.keys(),
                self.values(),
                encode_utf8(request.prefix@),
            ),
    {
        proof {
            self.table.lemma_lengths();
        }
        let prefix = request.prefix.as_str().as_bytes();
        let ghost p = encode_utf8(request.prefix@);
        let mut out: Vec<(String, Vec<u8>)> = Vec::new();
        let mut i: usize = 0;
        proof {
            assert(self.keys().take(0) =~= Seq::<Seq<u8>>::empty());
            assert(entry_views(out@) =~= Seq::<(Seq<char>, Seq<u8>)>::empty());
        }
        while i < self.table.len()
            invariant
                i <= self.keys().len(),
                self.keys().len() == self.values().len(),
                prefix@ == p,
                forall|j: int| 0 <= j < i ==> valid_utf8(#[trigger] self.keys()[j]),
                entry_views(out@) == entries_with_prefix(
                    self.keys().take(i as int),
                    self.values().take(i as int),
                    p,
                ),
            decreases self.keys().len() - i,
        {
            let (k, v) = self.table.entry(i);
            proof {
                assert(self.keys().take(i as int + 1).drop_last() =~= self.keys().take(i as int));
                assert(self.values().take(i as int + 1).drop_last() =~= self.values().take(i as int));
                assert(self.keys().take(i as int + 1).last() == k@);
                assert(self.values().take(i as int + 1).last() == *v);
            }
            let ghost before = out@;
            match string_from_utf8(crate::model::clone_bytes(k)) {
                Some(s) => {
                    if starts_with_bytes(k, prefix) {
                        out.push((s, crate::model::clone_bytes(v)));
                        proof {
                            assert(entry_views(out@) =~= entry_views(before).push((decode_utf8(k@), v@)));
                        }
                    }
                },
                None => {
                    return Err(GatewayError::InvalidUtf8);
                },
            }
            i = i + 1;
        }
        proof {
            assert(self.keys().take(i as int) =~= self.keys());
            assert(self.values().take(i as int) =~= self.values());
        }
        Ok(ListByPrefixResponse { map: out })
    }
}

/// The in-memory store serves as a client too: string keys are stored as
/// their UTF-8 bytes.
impl DBCompatibleClient for KvStore {
    type T = LocalServiceCredentials;

    fn init(db_name: &str, credentials: Option<Self::T>) -> (r: Result<Self, GatewayError>)
        ensures
            r matches Ok(store) && store.entries() == Map::<Seq<u8>, Seq<u8>>::empty(),
    {
        Ok(KvStore::new())
    }

    fn get_value(&self, key: &str) -> (r: Result<Option<Vec<u8>>, GatewayError>)
        ensures
            r matches Ok(v) && match v {
                Some(v) => self.entries().contains_key(encode_utf8(key@)) && v@ == self.entries()[encode_utf8(key@)],
                None => !self.entries().contains_key(encode_utf8(key@)),
            },
    {
        let resp = self.get(GetRequest { key: vstd::slice::slice_to_vec(key.as_bytes()) });
        Ok(resp.value)
    }

    fn put_value(&mut self, key: &str, value: &[u8]) -> (r: Result<(), GatewayError>)
        ensures
            r is Ok,
            final(self).entries() == old(self).entries().insert(encode_utf8(key@), value@),
    {
        self.put(PutRequest { key: vstd::slice::slice_to_vec(key.as_bytes()), value: vstd::slice::slice_to_vec(value) });
        Ok(())
    }

    fn delete_entry(&mut self, key: &str) -> (r: Result<(), GatewayError>)
        ensures
            r is Ok,
            final(self).entries() == old(self).entries().remove(encode_utf8(key@)),
    {
        self.delete(DeleteRequest { key: vstd::slice::slice_to_vec(key.as_bytes()) });
        Ok(())
    }

    fn list_entries(&self) -> (r: Result<Vec<(String, Vec<u8>)>, GatewayError>)
        ensures
            r is Ok <==> forall|i: int| 0 <= i < self.keys().len() ==> valid_utf8(#[trigger] self.keys()[i]),
            r matches Ok(es) ==> {
                &&& es@.len() == self.keys().len()
                &&& forall|i: int| 0 <= i < self.keys().len() ==> #[trigger] entry_views(es@)[i] == (
                    decode_utf8(self.keys()[i]),
                    self.values()[i]@,
                )
            },
    {
        match self.list() {
            Ok(resp) => Ok(resp.map),
            Err(e) => Err(e),
        }
    }

    fn list_entries_with_prefix(&self, prefix: &str) -> (r: Result<Vec<(String, Vec<u8>)>, GatewayError>)
        ensures
            r is Ok <==> forall|i: int| 0 <= i < self.keys().len() ==> valid_utf8(#[trigger] self.keys()[i]),
            r matches Ok(es) ==> entry_views(es@) == entries_with_prefix(self.keys(), self.values(), encode_utf8(prefix@)),
    {
        match self.list_by_prefix(ListByPrefixRequest { prefix: String::from_str(prefix) }) {
            Ok(resp) => Ok(resp.map),
            Err(e) => Err(e),
        }
    }
}

} // verus!
