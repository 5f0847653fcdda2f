//! Names users give to addresses: per-user nicknames and the shared
//! address book.
use vstd::prelude::*;
use vstd::string::StrSliceExecFns;
use crate::error::GatewayError;
use crate::model::{clone_str, Email, ADMIN_EMAIL};
use crate::storage::Storable;
use crate::table::Table;

verus! {

/// The most bytes a nickname key may have: enough for a Bitcoin taproot
/// address.
pub const MAX_NICKNAME_KEY_LEN: usize = 62;

/// The most bytes a nickname or an address-book name may have.
pub const MAX_NAME_LEN: usize = 20;

/// The number of bytes of `s` in UTF-8.
pub open spec fn byte_len(s: Seq<char>) -> nat {
    vstd::utf8::encode_utf8(s).len()
}

/// Whether `s` is a name of at least one and at most `max` bytes; which
/// check fails first otherwise.
pub open spec fn name_check(s: Seq<char>, max: nat) -> Option<GatewayError> {
    if byte_len(s) > max {
        Some(GatewayError::NameTooLong)
    } else if s.len() == 0 {
        Some(GatewayError::EmptyName)
    } else {
        None
    }
}

fn check_name(s: &String, max: usize) -> (r: Option<GatewayError>)
    ensures
        r == name_check(s@, max as nat),
{
    let t = s.as_str();
    let n = t.as_bytes().len();
    if n > max {
        return Some(GatewayError::NameTooLong);
    }
    if t.is_empty() {
        return Some(GatewayError::EmptyName);
    }
    None
}

/// What a nickname is given to (an address).
pub struct NicknameKey(String);

/// A nickname.
pub struct NicknameValue(String);

/// A name in the address book.
pub struct AddressName(pub String);

impl NicknameKey {
    pub closed spec fn view(&self) -> Seq<char> {
        self.0@
    }

    /// `s` as a key, whatever its length (as `From<String>` does).
    pub fn from_string(s: String) -> (r: Self)
        ensures
            r.view() == s@,
    {
        NicknameKey(s)
    }

    /// `s` as a key when it has between one and 62 bytes (the check made
    /// when a key is read from a request).
    pub fn parse(s: String) -> (r: Result<Self, GatewayError>)
        ensures
            r is Ok <==> name_check(s@, MAX_NICKNAME_KEY_LEN as nat) is None,
            r matches Ok(k) ==> k.view() == s@,
            r matches Err(e) ==> Some(e) == name_check(s@, MAX_NICKNAME_KEY_LEN as nat),
    {
        match check_name(&s, MAX_NICKNAME_KEY_LEN) {
            Some(e) => Err(e),
            None => Ok(NicknameKey(s)),
        }
    }

    pub fn as_string(&self) -> (r: &String)
        ensures
            r@ == self.view(),
    {
        &self.0
    }
}

impl NicknameValue {
    pub closed spec fn view(&self) -> Seq<char> {
        self.0@
    }

    /// `s` as a nickname, whatever its length (as `From<String>` does).
    pub fn from_string(s: String) -> (r: Self)
        ensures
            r.view() == s@,
    {
        NicknameValue(s)
    }

    /// `s` as a nickname when it has between one and 20 bytes.
    pub fn parse(s: String) -> (r: Result<Self, GatewayError>)
        ensures
            r is Ok <==> name_check(s@, MAX_NAME_LEN as nat) is None,
            r matches Ok(v) ==> v.view() == s@,
            r matches Err(e) ==> Some(e) == name_check(s@, MAX_NAME_LEN as nat),
    {
        match check_name(&s, MAX_NAME_LEN) {
            Some(e) => Err(e),
            None => Ok(NicknameValue(s)),
        }
    }

    pub fn as_str(&self) -> (r: &str)
        ensures
            r@ == self.view(),
    {
        self.0.as_str()
    }

    pub fn duplicate(&self) -> (r: Self)
        ensures
            r.view() == self.view(),
    {
        NicknameValue(clone_str(&self.0))
    }
}

impl AddressName {
    /// `s` as an address-book name when it has between one and 20 bytes.
    pub fn parse(s: String) -> (r: Result<Self, GatewayError>)
        ensures
            r is Ok <==> name_check(s@, MAX_NAME_LEN as nat) is None,
            r matches Ok(n) ==> n.0@ == s@,
            r matches Err(e) ==> Some(e) == name_check(s@, MAX_NAME_LEN as nat),
    {
        match check_name(&s, MAX_NAME_LEN) {
            Some(e) => Err(e),
            None => Ok(AddressName(s)),
        }
    }

    pub fn into_string(self) -> (r: String)
        ensures
            r == self.0,
    {
        self.0
    }
}

/// The nicknames one user gave, by key.
pub struct NicknameInfo {
    email: Email,
    inner: Table<NicknameValue>,
}

impl NicknameInfo {
    pub closed spec fn email_spec(&self) -> Seq<char> {
        self.email@
    }

    /// Each key's nickname.
    pub closed spec fn names(&self) -> Map<Seq<char>, Seq<char>> {
        self.inner.map().map_values(|v: NicknameValue| v.view())
    }

    /// No nicknames yet.
    pub fn new(email: Email) -> (r: Self)
        ensures
            r.email_spec() == email@,
            r.names() == Map::<Seq<char>, Seq<char>>::empty(),
    {
        let t = Table::new();
        proof {
            assert(t.map().map_values(|v: NicknameValue| v.view()) =~= Map::<Seq<char>, Seq<char>>::empty());
        }
        NicknameInfo { email, inner: t }
    }

    /// The nickname of `k`, if one is set.
    pub fn get_nickname(&self, k: &NicknameKey) -> (r: Option<NicknameValue>)
        ensures
            r is Some <==> self.names().contains_key(k.view()),
            r matches Some(v) ==> v.view() == self.names()[k.view()],
    {
        match self.inner.get(k.as_string()) {
            Some(v) => Some(v.duplicate()),
            None => None,
        }
    }

    /// Gives `k` the nickname `v`, replacing any earlier one.
    pub fn set_nickname(&mut self, k: NicknameKey, v: NicknameValue)
        ensures
            final(self).names() == old(self).names().insert(k.view(), v.view()),
            final(self).email_spec() == old(self).email_spec(),
    {
        let ghost kv = k.view();
        let ghost vv = v.view();
        self.inner.insert(k.0, v);
        proof {
            assert(self.names() =~= old(self).names().insert(kv, vv));
        }
    }

    /// Drops the nickname of `k`, if any.
    pub fn remove_nickname(&mut self, k: &NicknameKey)
        ensures
            final(self).names() == old(self).names().remove(k.view()),
            final(self).email_spec() == old(self).email_spec(),
    {
        self.inner.remove(k.as_string());
        proof {
            assert(self.names() =~= old(self).names().remove(k.view()));
        }
    }

    /// Every key with its nickname, in the order keys were first named.
    pub fn take_all(self) -> (r: Vec<(NicknameKey, NicknameValue)>)
        ensures
            forall|i: int| 0 <= i < r@.len() ==> #[trigger] self.names().contains_key(r@[i].0.view())
                && self.names()[r@[i].0.view()] == r@[i].1.view(),
            forall|k: Seq<char>| #[trigger] self.names().contains_key(k) ==> exists|i: int|
                0 <= i < r@.len() && r@[i].0.view() == k,
            forall|i: int, j: int| 0 <= i < j < r@.len() ==> r@[i].0.view() != r@[j].0.view(),
    {
        let ghost names = self.names();
        let ghost ks = self.inner.key_seq();
        let ghost vs = self.inner.value_seq();
        let ghost m = self.inner.map();
        proof {
            self.inner.lemma_lengths();
        }
        let pairs = self.inner.into_entries();
        let mut out: Vec<(NicknameKey, NicknameValue)> = Vec::new();
        let mut i: usize = 0;
        while i < pairs.len()
            invariant
                i <= pairs@.len(),
                pairs@.len() == ks.len(),
                out@.len() == i,
                forall|j: int| 0 <= j < pairs@.len() ==> (#[trigger] pairs@[j]).0@ == ks[j] && pairs@[j].1 == vs[j],
                forall|j: int| 0 <= j < i ==> (#[trigger] out@[j]).0.view() == ks[j] && out@[j].1.view()
                    == vs[j].view(),
            decreases pairs@.len() - i,
        {
            out.push((NicknameKey(clone_str(&pairs[i].0)), pairs[i].1.duplicate()));
            i = i + 1;
        }
        proof {
            assert forall|j: int| 0 <= j < out@.len() implies #[trigger] names.contains_key(out@[j].0.view())
                && names[out@[j].0.view()] == out@[j].1.view() by {
                crate::table::lemma_index_of_unique(ks, j);
                assert(ks.contains(ks[j]));
                assert(m.contains_key(ks[j]));
            }
            assert forall|k: Seq<char>| #[trigger] names.contains_key(k) implies exists|j: int|
                0 <= j < out@.len() && out@[j].0.view() == k by {
                assert(m.contains_key(k));
                assert(ks.contains(k));
                let j = choose|j: int| 0 <= j < ks.len() && ks[j] == k;
                assert(out@[j].0.view() == k);
            }
        }
        out
    }
}

impl Storable for NicknameInfo {
    open spec fn table_name_spec() -> Seq<char> {
        "NicknameInfo"@
    }

    open spec fn unique_id_spec(&self) -> Seq<char> {
        self.email_spec()
    }

    fn table_name() -> (r: &'static str) {
        "NicknameInfo"
    }

    fn unique_id(&self) -> (r: String) {
        clone_str(&self.email)
    }
}

/// A named address of the address book, with who named it and when.
pub struct AddressBookEntry {
    pub address: String,
    pub name: AddressName,
    pub last_modified_time: u64,
    pub last_modified_by: Email,
}

/// `c` in ASCII lower case.
pub open spec fn ascii_lower_char(c: char) -> char {
    if 'A' <= c && c <= 'Z' {
        ((c as int) + 32) as char
    } else {
        c
    }
}

pub open spec fn ascii_lower(s: Seq<char>) -> Seq<char> {
    s.map_values(|c: char| ascii_lower_char(c))
}

/// The lower-case letter of the upper-case ASCII letter `c`, as text.
fn lower_letter(c: char) -> (r: &'static str)
    requires
        'A' <= c && c <= 'Z',
    ensures
        r@ == seq![ascii_lower_char(c)],
{
    let letters = "abcdefghijklmnopqrstuvwxyz";
    proof {
        reveal_strlit("abcdefghijklmnopqrstuvwxyz");
        assert(letters@.len() == 26);
        assert(forall|k: int| 0 <= k < 26 ==> #[trigger] letters@[k] == ((97 + k) as char)) by {
            assert(letters@ =~= seq!['a', 'b', 'c', 'd', 'e', 'f', 'g', 'h', 'i', 'j', 'k', 'l', 'm', 'n', 'o', 'p', 'q', 'r', 's', 't', 'u', 'v', 'w', 'x', 'y', 'z']);
        }
    }
    let k = (c as u32 - 65) as usize;
    let r = letters.substring_char(k, k + 1);
    proof {
        assert(r@ =~= seq![letters@[k as int]]);
    }
    r
}

/// `s` with the ASCII letters `A` to `Z` in lower case and every other
/// character as it is (what `str::to_ascii_lowercase` gives).
fn to_ascii_lowercase(s: &str) -> (r: String)
    ensures
        r@ == ascii_lower(s@),
{
    let n = s.unicode_len();
    let mut out = String::new();
    let mut i: usize = 0;
    while i < n
        invariant
            i <= n,
            n == s@.len(),
            out@ == ascii_lower(s@.take(i as int)),
        decreases n - i,
    {
        let c = s.get_char(i);
        if 'A' <= c && c <= 'Z' {
            out.append(lower_letter(c));
        } else {
            out.append(s.substring_char(i, i + 1));
        }
        proof {
            assert(ascii_lower(s@.take(i as int + 1)) =~= ascii_lower(s@.take(i as int)).push(ascii_lower_char(c)));
        }
        i = i + 1;
    }
    proof {
        assert(s@.take(i as int) =~= s@);
    }
    out
}

impl AddressBookEntry {
    /// An entry named `name` by `last_modified_by` at `now`.
    pub fn new(address: String, name: AddressName, last_modified_by: Email, now: u64) -> (r: Self)
        ensures
            r.address == address,
            r.name == name,
            r.last_modified_by == last_modified_by,
            r.last_modified_time == now,
    {
        AddressBookEntry { address, name, last_modified_time: now, last_modified_by }
    }

    /// The entry of an address nobody named: "unknown", by the admin, at
    /// time 0.
    pub fn new_null(address: String) -> (r: Self)
        ensures
            r.address == address,
            r.name.0@ == "unknown"@,
            r.last_modified_time == 0,
            r.last_modified_by@ == ADMIN_EMAIL@,
    {
        AddressBookEntry {
            address,
            name: AddressName(String::from_str("unknown")),
            last_modified_time: 0,
            last_modified_by: String::from_str(ADMIN_EMAIL),
        }
    }

    /// Renames the entry, by `last_modified_by` at `now`.
    pub fn update_name(&mut self, name: AddressName, last_modified_by: Email, now: u64)
        ensures
            final(self).address == old(self).address,
            final(self).name == name,
            final(self).last_modified_by == last_modified_by,
            final(self).last_modified_time == now,
    {
        self.name = name;
        self.last_modified_time = now;
        self.last_modified_by = last_modified_by;
    }
}

impl Storable for AddressBookEntry {
    open spec fn table_name_spec() -> Seq<char> {
        "AddressBookEntry"@
    }

    /// Entries are found by the address in lower case.
    open spec fn unique_id_spec(&self) -> Seq<char> {
        ascii_lower(self.address@)
    }

    fn table_name() -> (r: &'static str) {
        "AddressBookEntry"
    }

    fn unique_id(&self) -> (r: String) {
        to_ascii_lowercase(self.address.as_str())
    }
}

} // verus!
