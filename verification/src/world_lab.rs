//! world-lab: pairing bookkeeping for idle devices, and the sandboxed
//! computation they may be asked to run (WebAssembly with no imports, a
//! fuel limit, a memory limit and capped input and output).

use vstd::prelude::*;
use crate::text::{
    chars_of, string_from_chars, trim, trimmed, push_str, push_decimal, decimal, chars_eq,
};
use crate::rng::{random_hex, hex_of};
use crate::table::Table;

verus! {

// ---------------------------------------------------------------------------
// Pairing

/// A paired device.
#[derive(Debug)]
pub struct PairedDevice {
    pub device_id: String,
    pub device_name: String,
    /// `"usb"`, `"wifi"`, `"bluetooth"`, `"lan"` or `"wan"` (over the
    /// internet).
    pub connection: String,
    pub paired_at_unix: u64,
}

/// A paired device as plain values.
pub struct DeviceRecord {
    pub device_id: Seq<char>,
    pub device_name: Seq<char>,
    pub connection: Seq<char>,
    pub paired_at_unix: int,
}

impl View for PairedDevice {
    type V = DeviceRecord;

    open spec fn view(&self) -> DeviceRecord {
        DeviceRecord {
            device_id: self.device_id@,
            device_name: self.device_name@,
            connection: self.connection@,
            paired_at_unix: self.paired_at_unix as int,
        }
    }
}

impl Clone for PairedDevice {
    fn clone(&self) -> (r: Self)
        ensures
            r@ == self@,
    {
        PairedDevice {
            device_id: self.device_id.clone(),
            device_name: self.device_name.clone(),
            connection: self.connection.clone(),
            paired_at_unix: self.paired_at_unix,
        }
    }
}

/// The pairing state: whether the feature is on, the pairing token, and the
/// paired devices by id.
pub struct WorldLabView {
    pub enabled: bool,
    pub pairing_token: Seq<char>,
    pub devices: Map<Seq<char>, DeviceRecord>,
}

/// Devices paired with this server. Nothing is persisted.
pub struct WorldLab {
    enabled: bool,
    pairing_token: String,
    devices: Table<PairedDevice>,
}

impl View for WorldLab {
    type V = WorldLabView;

    closed spec fn view(&self) -> WorldLabView {
        WorldLabView { enabled: self.enabled, pairing_token: self.pairing_token@, devices: self.devices@ }
    }
}

/// Every device is stored under its own id.
pub open spec fn keyed_by_id(devices: Map<Seq<char>, DeviceRecord>) -> bool {
    forall|k: Seq<char>| #[trigger] devices.contains_key(k) ==> devices[k].device_id == k
}

/// The error every pairing call gives while world-lab is off.
pub open spec fn disabled_message() -> Seq<char> {
    "world-lab is disabled on this server (set OPEN_ENGLISH_WORLD_LAB_ENABLED=1)"@
}

fn disabled_error() -> (s: String)
    ensures
        s@ == disabled_message(),
{
    String::from_str("world-lab is disabled on this server (set OPEN_ENGLISH_WORLD_LAB_ENABLED=1)")
}

/// A connection kind that can be paired.
pub open spec fn connection_ok(c: Seq<char>) -> bool {
    c == "usb"@ || c == "wifi"@ || c == "bluetooth"@ || c == "lan"@ || c == "wan"@
}

/// The checks of a pairing request, in order: enabled, token, connection,
/// name (1 to 100 characters once trimmed). Gives the trimmed name.
pub open spec fn pair_check(v: WorldLabView, token: Seq<char>, device_name: Seq<char>, connection: Seq<char>) -> Result<Seq<char>, Seq<char>> {
    if !v.enabled {
        Err(disabled_message())
    } else if token != v.pairing_token {
        Err("invalid pairing token"@)
    } else if !connection_ok(connection) {
        Err("connection must be one of: usb, wifi, bluetooth, lan, wan (got \""@ + connection + "\")"@)
    } else if trim(device_name).len() == 0 || trim(device_name).len() > 100 {
        Err("device_name must be 1-100 characters"@)
    } else {
        Ok(trim(device_name))
    }
}

/// A device id: 8 random bytes in hexadecimal.
pub open spec fn is_device_id(t: Seq<char>) -> bool {
    exists|b: Seq<u8>| b.len() == 8 && t == hex_of(b)
}

/// A pairing token: 16 random bytes in hexadecimal.
pub open spec fn is_pairing_token(t: Seq<char>) -> bool {
    exists|b: Seq<u8>| b.len() == 16 && t == hex_of(b)
}

/// Compares two byte strings, looking at every byte whatever the earlier
/// ones were (only the lengths are compared early).
pub fn constant_time_eq(a: &[u8], b: &[u8]) -> (r: bool)
    ensures
        r == (a@ == b@),
{
    if a.len() != b.len() {
        return false;
    }
    let mut diff: u8 = 0;
    let mut i: usize = 0;
    while i < a.len()
        invariant
            i <= a.len(),
            a.len() == b.len(),
            (diff == 0) == (forall|j: int| 0 <= j < i ==> a@[j] == b@[j]),
        decreases a.len() - i,
    {
        let x = a[i];
        let y = b[i];
        let nd = diff | (x ^ y);
        assert(nd == 0 <==> (diff == 0 && x == y)) by (bit_vector)
            requires
                nd == diff | (x ^ y),
        ;
        diff = nd;
        i = i + 1;
    }
    let r = diff == 0;
    if r {
        assert(a@ =~= b@);
    }
    r
}

/// A fresh pairing token (16 random bytes in hexadecimal); `None` when the
/// random source fails.
pub fn random_pairing_token() -> (res: Option<String>)
    ensures
        res matches Some(t) ==> is_pairing_token(t@),
{
    random_hex(16)
}

/// The configured pairing token: the setting's value unless it is empty.
pub fn pairing_token_setting(value: Option<&str>) -> (res: Option<String>)
    ensures
        res matches Some(t) ==> value matches Some(v) && v@ == t@ && t@.len() > 0,
        res is None ==> (value is None || value.unwrap()@.len() == 0),
{
    match value {
        Some(v) => {
            let cs = chars_of(v);
            if cs.len() > 0 {
                Some(String::from_str(v))
            } else {
                None
            }
        },
        None => None,
    }
}

/// The pairing token a setting gives: its value unless it is empty.
pub open spec fn configured_token(value: Option<Seq<char>>) -> Option<Seq<char>> {
    match value {
        Some(v) => if v.len() > 0 {
            Some(v)
        } else {
            None
        },
        None => None,
    }
}

/// Whether a setting value turns a feature on (exactly `"1"`).
pub fn flag_enabled(value: Option<&str>) -> (b: bool)
    ensures
        b == (value matches Some(v) && v@ == "1"@),
{
    match value {
        Some(v) => chars_eq(&chars_of(v), &chars_of("1")),
        None => false,
    }
}

/// The plain values of a list of devices.
pub open spec fn device_views(ds: Seq<PairedDevice>) -> Seq<DeviceRecord> {
    ds.map_values(|d: PairedDevice| d@)
}

/// Sorted by pairing time, oldest first.
pub open spec fn by_pairing_time(s: Seq<DeviceRecord>) -> bool {
    forall|a: int, b: int| 0 <= a <= b < s.len() ==> #[trigger] s[a].paired_at_unix <= #[trigger] s[b].paired_at_unix
}

/// `s` lists every device of `devices` exactly once, oldest pairing first.
pub open spec fn lists_devices(s: Seq<DeviceRecord>, devices: Map<Seq<char>, DeviceRecord>) -> bool {
    &&& forall|i: int| 0 <= i < s.len() ==> #[trigger] devices.contains_key(s[i].device_id) && devices[s[i].device_id] == s[i]
    &&& forall|k: Seq<char>| #[trigger] devices.contains_key(k) ==> exists|i: int| 0 <= i < s.len() && s[i].device_id == k
    &&& forall|a: int, b: int| 0 <= a < b < s.len() ==> #[trigger] s[a].device_id != #[trigger] s[b].device_id
    &&& by_pairing_time(s)
}

/// `s` lists, once each and sorted, the devices under the first `j` keys of `ks`.
#[verifier::opaque]
pub open spec fn listed(s: Seq<DeviceRecord>, ks: Seq<Seq<char>>, j: int, m: Map<Seq<char>, DeviceRecord>) -> bool {
    &&& s.len() == j
    &&& stored(s, m)
    &&& forall|i: int| 0 <= i < s.len() ==> key_before(ks, j, #[trigger] s[i].device_id)
    &&& forall|jj: int| 0 <= jj < j ==> id_listed(s, #[trigger] ks[jj])
    &&& distinct_ids(s)
    &&& by_pairing_time(s)
}

/// `id` is one of the first `j` keys.
pub open spec fn key_before(ks: Seq<Seq<char>>, j: int, id: Seq<char>) -> bool {
    exists|jj: int| 0 <= jj < j && ks[jj] == id
}

/// Some listed device has id `id`.
pub open spec fn id_listed(s: Seq<DeviceRecord>, id: Seq<char>) -> bool {
    exists|i: int| 0 <= i < s.len() && s[i].device_id == id
}

/// Every listed device is the one stored under its id.
pub open spec fn stored(s: Seq<DeviceRecord>, m: Map<Seq<char>, DeviceRecord>) -> bool {
    forall|i: int| 0 <= i < s.len() ==> #[trigger] m.contains_key(s[i].device_id) && m[s[i].device_id] == s[i]
}

/// No id is listed twice.
pub open spec fn distinct_ids(s: Seq<DeviceRecord>) -> bool {
    forall|a: int, b: int| 0 <= a < b < s.len() ==> #[trigger] s[a].device_id != #[trigger] s[b].device_id
}

proof fn lemma_listed_empty(ks: Seq<Seq<char>>, m: Map<Seq<char>, DeviceRecord>)
    ensures
        listed(Seq::<DeviceRecord>::empty(), ks, 0, m),
{
    reveal(listed);
}

proof fn lemma_insert_index(s: Seq<DeviceRecord>, d: DeviceRecord, p: int, i: int)
    requires
        0 <= p <= s.len(),
        0 <= i <= s.len(),
    ensures
        i < p ==> s.insert(p, d)[i] == s[i],
        i == p ==> s.insert(p, d)[i] == d,
        i > p ==> s.insert(p, d)[i] == s[i - 1],
{
}

proof fn lemma_insert_stored(s: Seq<DeviceRecord>, d: DeviceRecord, p: int, m: Map<Seq<char>, DeviceRecord>)
    requires
        stored(s, m),
        m.contains_key(d.device_id),
        m[d.device_id] == d,
        0 <= p <= s.len(),
    ensures
        stored(s.insert(p, d), m),
{
    let t = s.insert(p, d);
    assert forall|i: int| 0 <= i < t.len() implies #[trigger] m.contains_key(t[i].device_id) && m[t[i].device_id] == t[i] by {
        lemma_insert_index(s, d, p, i);
    }
}

proof fn lemma_insert_distinct(s: Seq<DeviceRecord>, d: DeviceRecord, p: int)
    requires
        distinct_ids(s),
        forall|i: int| 0 <= i < s.len() ==> s[i].device_id != d.device_id,
        0 <= p <= s.len(),
    ensures
        distinct_ids(s.insert(p, d)),
{
    let t = s.insert(p, d);
    assert forall|a: int, b: int| 0 <= a < b < t.len() implies #[trigger] t[a].device_id != #[trigger] t[b].device_id by {
        lemma_insert_index(s, d, p, a);
        lemma_insert_index(s, d, p, b);
    }
}

proof fn lemma_insert_sorted(s: Seq<DeviceRecord>, d: DeviceRecord, p: int)
    requires
        by_pairing_time(s),
        0 <= p <= s.len(),
        forall|i: int| 0 <= i < p ==> s[i].paired_at_unix <= d.paired_at_unix,
        p < s.len() ==> s[p].paired_at_unix > d.paired_at_unix,
    ensures
        by_pairing_time(s.insert(p, d)),
{
    let t = s.insert(p, d);
    assert forall|a: int, b: int| 0 <= a <= b < t.len() implies #[trigger] t[a].paired_at_unix <= #[trigger] t[b].paired_at_unix by {
        lemma_insert_index(s, d, p, a);
        lemma_insert_index(s, d, p, b);
        if a < p && b > p {
            assert(s[a].paired_at_unix <= s[b - 1].paired_at_unix);
        } else if a == p && b > p {
            assert(s[p].paired_at_unix <= s[b - 1].paired_at_unix);
        } else if a > p {
            assert(s[a - 1].paired_at_unix <= s[b - 1].paired_at_unix);
        } else if a < p && b < p {
            assert(s[a].paired_at_unix <= s[b].paired_at_unix);
        }
    }
}

proof fn lemma_insert_keys(s: Seq<DeviceRecord>, d: DeviceRecord, p: int, ks: Seq<Seq<char>>, j: int)
    requires
        s.len() == j,
        forall|i: int| 0 <= i < s.len() ==> key_before(ks, j, #[trigger] s[i].device_id),
        forall|jj: int| 0 <= jj < j ==> id_listed(s, #[trigger] ks[jj]),
        0 <= j < ks.len(),
        d.device_id == ks[j],
        0 <= p <= s.len(),
    ensures
        forall|i: int| 0 <= i < s.len() + 1 ==> key_before(ks, j + 1, #[trigger] s.insert(p, d)[i].device_id),
        forall|jj: int| 0 <= jj < j + 1 ==> id_listed(s.insert(p, d), #[trigger] ks[jj]),
{
    let t = s.insert(p, d);
    assert forall|i: int| 0 <= i < t.len() implies key_before(ks, j + 1, #[trigger] t[i].device_id) by {
        lemma_insert_index(s, d, p, i);
        if i < p {
            assert(key_before(ks, j, s[i].device_id));
            let jj = choose|jj: int| 0 <= jj < j && ks[jj] == s[i].device_id;
            assert(ks[jj] == t[i].device_id);
        } else if i > p {
            assert(key_before(ks, j, s[i - 1].device_id));
            let jj = choose|jj: int| 0 <= jj < j && ks[jj] == s[i - 1].device_id;
            assert(ks[jj] == t[i].device_id);
        } else {
            assert(ks[j] == t[i].device_id);
        }
    }
    assert forall|jj: int| 0 <= jj < j + 1 implies id_listed(t, #[trigger] ks[jj]) by {
        if jj == j {
            lemma_insert_index(s, d, p, p);
            assert(t[p].device_id == ks[jj]);
        } else {
            assert(id_listed(s, ks[jj]));
            let i = choose|i: int| 0 <= i < s.len() && s[i].device_id == ks[jj];
            if i < p {
                lemma_insert_index(s, d, p, i);
                assert(t[i].device_id == ks[jj]);
            } else {
                lemma_insert_index(s, d, p, i + 1);
                assert(t[i + 1].device_id == ks[jj]);
            }
        }
    }
}

proof fn lemma_listed_insert(s: Seq<DeviceRecord>, d: DeviceRecord, p: int, ks: Seq<Seq<char>>, j: int, m: Map<Seq<char>, DeviceRecord>)
    requires
        listed(s, ks, j, m),
        0 <= j < ks.len(),
        forall|a: int, b: int| 0 <= a < ks.len() && 0 <= b < ks.len() && a != b ==> ks[a] != ks[b],
        d.device_id == ks[j],
        m.contains_key(ks[j]),
        m[ks[j]] == d,
        0 <= p <= s.len(),
        forall|i: int| 0 <= i < p ==> s[i].paired_at_unix <= d.paired_at_unix,
        p < s.len() ==> s[p].paired_at_unix > d.paired_at_unix,
    ensures
        listed(s.insert(p, d), ks, j + 1, m),
{
    reveal(listed);
    assert forall|i: int| 0 <= i < s.len() implies s[i].device_id != d.device_id by {
        assert(key_before(ks, j, s[i].device_id));
        let jj = choose|jj: int| 0 <= jj < j && ks[jj] == s[i].device_id;
    }
    lemma_insert_stored(s, d, p, m);
    lemma_insert_distinct(s, d, p);
    lemma_insert_sorted(s, d, p);
    lemma_insert_keys(s, d, p, ks, j);
}

proof fn lemma_listed_all(s: Seq<DeviceRecord>, ks: Seq<Seq<char>>, m: Map<Seq<char>, DeviceRecord>)
    requires
        listed(s, ks, ks.len() as int, m),
        forall|k: Seq<char>| #[trigger] m.contains_key(k) ==> exists|i: int| 0 <= i < ks.len() && ks[i] == k,
    ensures
        lists_devices(s, m),
{
    reveal(listed);
    assert forall|k: Seq<char>| #[trigger] m.contains_key(k) implies exists|i: int| 0 <= i < s.len() && s[i].device_id == k by {
        let jj = choose|jj: int| 0 <= jj < ks.len() && ks[jj] == k;
        assert(id_listed(s, ks[jj]));
    }
}

impl WorldLab {
    #[verifier::type_invariant]
    spec fn ids_match(&self) -> bool {
        keyed_by_id(self.devices@)
    }

    /// A world-lab with no paired devices.
    pub fn new(enabled: bool, pairing_token: String) -> (w: Self)
        ensures
            w@.enabled == enabled,
            w@.pairing_token == pairing_token@,
            w@.devices == Map::<Seq<char>, DeviceRecord>::empty(),
    {
        WorldLab { enabled, pairing_token, devices: Table::new() }
    }

    /// The world-lab as configured by the values of
    /// `OPEN_ENGLISH_WORLD_LAB_ENABLED` (`enabled_value`) and
    /// `OPEN_ENGLISH_WORLD_LAB_PAIRING_TOKEN` (`token_value`): on only when the
    /// first is exactly `"1"`; the pairing token is the second unless it is
    /// absent or empty, else a fresh random token. `None` only when that
    /// random token could not be drawn.
    pub fn from_env(enabled_value: Option<&str>, token_value: Option<&str>) -> (res: Option<Self>)
        ensures
            res matches Some(w) ==> w@.enabled == (enabled_value matches Some(v) && v@ == "1"@)
                && w@.devices == Map::<Seq<char>, DeviceRecord>::empty() && match configured_token(
                crate::text::opt_str(token_value),
            ) {
                Some(t) => w@.pairing_token == t,
                None => is_pairing_token(w@.pairing_token),
            },
            res is None ==> configured_token(crate::text::opt_str(token_value)) is None,
    {
        let enabled = flag_enabled(enabled_value);
        let token = match pairing_token_setting(token_value) {
            Some(t) => t,
            None => match random_pairing_token() {
                Some(t) => t,
                None => return None,
            },
        };
        Some(WorldLab::new(enabled, token))
    }

    /// The pairing token of this session.
    pub fn pairing_token(&self) -> (t: &str)
        ensures
            t@ == self@.pairing_token,
    {
        self.pairing_token.as_str()
    }

    /// Whether world-lab is on and `token` is the pairing token (compared
    /// in constant time).
    pub fn token_matches(&self, token: &str) -> (b: bool)
        ensures
            b == (self@.enabled && token@ == self@.pairing_token),
    {
        proof {
            vstd::utf8::encode_utf8_decode_utf8(token@);
            vstd::utf8::encode_utf8_decode_utf8(self.pairing_token@);
        }
        self.enabled && constant_time_eq(token.as_bytes(), self.pairing_token.as_str().as_bytes())
    }

    /// Pairs a device: after the checks of `pair_check`, stores it under a
    /// fresh random id with the given time.
    pub fn pair(&mut self, token: &str, device_name: &str, connection: &str, now_unix: u64) -> (res: Result<PairedDevice, String>)
        ensures
            final(self)@.enabled == old(self)@.enabled,
            final(self)@.pairing_token == old(self)@.pairing_token,
            match pair_check(old(self)@, token@, device_name@, connection@) {
                Err(m) => (res matches Err(e) && e@ == m) && final(self)@ == old(self)@,
                Ok(name) => match res {
                    Ok(d) => {
                        &&& is_device_id(d.device_id@)
                        &&& d.device_name@ == name
                        &&& d.connection@ == connection@
                        &&& d.paired_at_unix == now_unix
                        &&& final(self)@.devices == old(self)@.devices.insert(d.device_id@, d@)
                    },
                    Err(e) => e@ == "system RNG failure"@ && final(self)@ == old(self)@,
                },
            },
    {
        proof {
            use_type_invariant(&*self);
        }
        if !self.enabled {
            return Err(disabled_error());
        }
        proof {
            vstd::utf8::encode_utf8_decode_utf8(token@);
            vstd::utf8::encode_utf8_decode_utf8(self.pairing_token@);
        }
        if !constant_time_eq(token.as_bytes(), self.pairing_token.as_str().as_bytes()) {
            return Err(String::from_str("invalid pairing token"));
        }
        let c = chars_of(connection);
        if !(chars_eq(&c, &chars_of("usb")) || chars_eq(&c, &chars_of("wifi")) || chars_eq(&c, &chars_of("bluetooth"))
            || chars_eq(&c, &chars_of("lan")) || chars_eq(&c, &chars_of("wan"))) {
            let mut m: Vec<char> = Vec::new();
            push_str(&mut m, "connection must be one of: usb, wifi, bluetooth, lan, wan (got \"");
            push_str(&mut m, connection);
            push_str(&mut m, "\")");
            return Err(string_from_chars(&m));
        }
        let name = trimmed(device_name);
        if name.len() == 0 || name.len() > 100 {
            return Err(String::from_str("device_name must be 1-100 characters"));
        }
        let device_id = match random_hex(8) {
            None => return Err(String::from_str("system RNG failure")),
            Some(id) => id,
        };
        let device = PairedDevice {
            device_id: device_id.clone(),
            device_name: string_from_chars(&name),
            connection: String::from_str(connection),
            paired_at_unix: now_unix,
        };
        let out = device.clone();
        let mut devices: Table<PairedDevice> = Table::new();
        std::mem::swap(&mut devices, &mut self.devices);
        let ghost k = device_id@;
        devices.insert(device_id, device);
        assert(keyed_by_id(devices@)) by {
            assert forall|kk: Seq<char>| #[trigger] devices@.contains_key(kk) implies devices@[kk].device_id == kk by {
                if kk != k {
                    assert(old(self)@.devices.contains_key(kk));
                }
            }
        }
        self.devices = devices;
        Ok(out)
    }

    /// The paired devices, oldest pairing first.
    pub fn list_devices(&self) -> (res: Result<Vec<PairedDevice>, String>)
        ensures
            !self@.enabled ==> (res matches Err(e) && e@ == disabled_message()),
            self@.enabled ==> (res matches Ok(ds) && lists_devices(device_views(ds@), self@.devices)),
    {
        proof {
            use_type_invariant(self);
        }
        if !self.enabled {
            return Err(disabled_error());
        }
        let ks = self.devices.keys();
        let ghost kv = ks@.map_values(|k: String| k@);
        let ghost m = self@.devices;
        proof {
            assert forall|a: int, b: int| 0 <= a < kv.len() && 0 <= b < kv.len() && a != b implies kv[a] != kv[b] by {
                assert(ks@[a]@ != ks@[b]@);
            }
            assert forall|i: int| 0 <= i < kv.len() implies m.contains_key(#[trigger] kv[i]) by {
                assert(m.contains_key(ks@[i]@));
            }
            assert forall|k: Seq<char>| #[trigger] m.contains_key(k) implies exists|i: int| 0 <= i < kv.len() && kv[i] == k by {
                let i = choose|i: int| 0 <= i < ks.len() && #[trigger] ks@[i]@ == k;
                assert(kv[i] == k);
            }
            assert(device_views(Seq::<PairedDevice>::empty()) =~= Seq::<DeviceRecord>::empty());
            lemma_listed_empty(kv, m);
        }
        let mut out: Vec<PairedDevice> = Vec::new();
        let mut j: usize = 0;
        while j < ks.len()
            invariant
                j <= ks.len(),
                m == self@.devices,
                kv == ks@.map_values(|k: String| k@),
                keyed_by_id(m),
                forall|i: int| 0 <= i < kv.len() ==> m.contains_key(#[trigger] kv[i]),
                forall|k: Seq<char>| #[trigger] m.contains_key(k) ==> exists|i: int| 0 <= i < kv.len() && kv[i] == k,
                forall|a: int, b: int| 0 <= a < kv.len() && 0 <= b < kv.len() && a != b ==> kv[a] != kv[b],
                listed(device_views(out@), kv, j as int, m),
            decreases ks.len() - j,
        {
            let d = match self.devices.get(ks[j].as_str()) {
                Some(d) => d.clone(),
                None => {
                    assert(m.contains_key(kv[j as int]));
                    return Err(disabled_error());
                },
            };
            let ghost before = device_views(out@);
            let mut pos: usize = 0;
            while pos < out.len() && out[pos].paired_at_unix <= d.paired_at_unix
                invariant
                    pos <= out.len(),
                    before == device_views(out@),
                    forall|i: int| 0 <= i < pos ==> before[i].paired_at_unix <= d.paired_at_unix,
                decreases out.len() - pos,
            {
                pos = pos + 1;
            }
            proof {
                lemma_listed_insert(before, d@, pos as int, kv, j as int, m);
            }
            out.insert(pos, d);
            assert(device_views(out@) =~= before.insert(pos as int, d@));
            j = j + 1;
        }
        proof {
            lemma_listed_all(device_views(out@), kv, m);
        }
        Ok(out)
    }

    /// Removes a paired device; whether it was there.
    pub fn unpair(&mut self, device_id: &str) -> (res: Result<bool, String>)
        ensures
            final(self)@.enabled == old(self)@.enabled,
            final(self)@.pairing_token == old(self)@.pairing_token,
            !old(self)@.enabled ==> (res matches Err(e) && e@ == disabled_message()) && final(self)@ == old(self)@,
            old(self)@.enabled ==> res == Ok::<bool, String>(old(self)@.devices.contains_key(device_id@))
                && final(self)@.devices == old(self)@.devices.remove(device_id@),
    {
        proof {
            use_type_invariant(&*self);
        }
        if !self.enabled {
            return Err(disabled_error());
        }
        let mut devices: Table<PairedDevice> = Table::new();
        std::mem::swap(&mut devices, &mut self.devices);
        let r = devices.remove(device_id);
        assert(keyed_by_id(devices@)) by {
            assert forall|kk: Seq<char>| #[trigger] devices@.contains_key(kk) implies devices@[kk].device_id == kk by {
                assert(old(self)@.devices.contains_key(kk));
            }
        }
        self.devices = devices;
        Ok(r.is_some())
    }

    /// How many devices are paired.
    pub fn paired_device_count(&self) -> (n: usize)
        ensures
            self@.devices.dom().finite(),
            n == self@.devices.dom().len(),
    {
        self.devices.len()
    }
}

/// Every connection kind that the refusal message lists (usb, wifi,
/// bluetooth, lan, wan) can be paired: on an enabled world-lab, with the
/// right token and a name of 1 to 100 characters once trimmed, pairing
/// succeeds with the trimmed name exactly for those kinds.
pub proof fn listed_connections_pair(v: WorldLabView, device_name: Seq<char>, connection: Seq<char>)
    requires
        v.enabled,
        1 <= trim(device_name).len() <= 100,
    ensures
        (connection == "usb"@ || connection == "wifi"@ || connection == "bluetooth"@ || connection == "lan"@
            || connection == "wan"@) <==> pair_check(v, v.pairing_token, device_name, connection) is Ok,
        pair_check(v, v.pairing_token, device_name, connection) is Ok ==> pair_check(
            v,
            v.pairing_token,
            device_name,
            connection,
        ) == Ok::<Seq<char>, Seq<char>>(trim(device_name)),
{
}

/// A device that pairing stored shows up in the list of devices.
pub proof fn paired_device_is_listed(m: Map<Seq<char>, DeviceRecord>, d: DeviceRecord, s: Seq<DeviceRecord>)
    requires
        lists_devices(s, m.insert(d.device_id, d)),
    ensures
        exists|i: int| 0 <= i < s.len() && s[i] == d,
{
    let m2 = m.insert(d.device_id, d);
    assert(m2.contains_key(d.device_id));
    let i = choose|i: int| 0 <= i < s.len() && s[i].device_id == d.device_id;
    assert(m2.contains_key(s[i].device_id) && m2[s[i].device_id] == s[i]);
}

/// After unpairing, the device is no longer listed.
pub proof fn unpaired_device_is_not_listed(m: Map<Seq<char>, DeviceRecord>, id: Seq<char>, s: Seq<DeviceRecord>)
    requires
        lists_devices(s, m.remove(id)),
    ensures
        forall|i: int| 0 <= i < s.len() ==> s[i].device_id != id,
{
    assert forall|i: int| 0 <= i < s.len() implies s[i].device_id != id by {
        assert(m.remove(id).contains_key(s[i].device_id));
    }
}

// ---------------------------------------------------------------------------
// Sandboxed computation: limits and checks

/// Limits imposed on a guest module.
pub struct ComputeLimits {
    pub max_wasm_bytes: usize,
    pub max_input_bytes: usize,
    pub max_output_bytes: usize,
    pub memory_limit_bytes: usize,
    pub fuel_limit: u64,
    pub timeout_secs: u64,
}

/// A positive number setting: the value when it parses as a positive
/// integer no larger than `max`, else `default`.
pub open spec fn positive_setting(value: Option<Seq<char>>, max: int, default: int) -> int {
    match value {
        Some(v) => match crate::text::parse_uint(v, max) {
            Some(n) => if n > 0 {
                n
            } else {
                default
            },
            None => default,
        },
        None => default,
    }
}

/// A positive `u64` setting, or `default`.
pub fn u64_setting(value: Option<&str>, default: u64) -> (r: u64)
    ensures
        r as int == positive_setting(crate::text::opt_str(value), u64::MAX as int, default as int),
{
    match value {
        None => default,
        Some(v) => match crate::text::parse_unsigned(v, u64::MAX) {
            Some(n) => if n > 0 {
                n
            } else {
                default
            },
            None => default,
        },
    }
}

/// A positive `usize` setting, or `default`.
pub fn usize_setting(value: Option<&str>, default: usize) -> (r: usize)
    ensures
        r as int == positive_setting(crate::text::opt_str(value), usize::MAX as int, default as int),
{
    match value {
        None => default,
        Some(v) => match crate::text::parse_unsigned(v, usize::MAX as u64) {
            Some(n) => if n > 0 {
                n as usize
            } else {
                default
            },
            None => default,
        },
    }
}

impl ComputeLimits {
    /// The limits from the values of `OPEN_ENGLISH_WORLD_LAB_MAX_WASM_BYTES`,
    /// `_MAX_INPUT_BYTES`, `_MAX_OUTPUT_BYTES`, `_MEMORY_LIMIT_BYTES`,
    /// `_FUEL_LIMIT` and `_TIMEOUT_SECS`; each defaults when absent, not a
    /// positive number, or out of range.
    pub fn from_settings(
        max_wasm_bytes: Option<&str>,
        max_input_bytes: Option<&str>,
        max_output_bytes: Option<&str>,
        memory_limit_bytes: Option<&str>,
        fuel_limit: Option<&str>,
        timeout_secs: Option<&str>,
    ) -> (l: Self)
        ensures
            l.max_wasm_bytes as int == positive_setting(crate::text::opt_str(max_wasm_bytes), usize::MAX as int, 262144),
            l.max_input_bytes as int == positive_setting(crate::text::opt_str(max_input_bytes), usize::MAX as int, 65536),
            l.max_output_bytes as int == positive_setting(crate::text::opt_str(max_output_bytes), usize::MAX as int, 65536),
            l.memory_limit_bytes as int == positive_setting(crate::text::opt_str(memory_limit_bytes), usize::MAX as int, 4194304),
            l.fuel_limit as int == positive_setting(crate::text::opt_str(fuel_limit), u64::MAX as int, 500000000),
            l.timeout_secs as int == positive_setting(crate::text::opt_str(timeout_secs), u64::MAX as int, 5),
    {
        ComputeLimits {
            max_wasm_bytes: usize_setting(max_wasm_bytes, 262144),
            max_input_bytes: usize_setting(max_input_bytes, 65536),
            max_output_bytes: usize_setting(max_output_bytes, 65536),
            memory_limit_bytes: usize_setting(memory_limit_bytes, 4194304),
            fuel_limit: u64_setting(fuel_limit, 500000000),
            timeout_secs: u64_setting(timeout_secs, 5),
        }
    }
}

/// The sandboxed computation service: whether it is on, the limits of each
/// task, and how many tasks may run at once and wait for a turn.
pub struct ComputeEngine {
    pub enabled: bool,
    pub limits: ComputeLimits,
    pub max_concurrent: usize,
    pub max_queue: usize,
}

impl ComputeEngine {
    /// The service as configured by the values of
    /// `OPEN_ENGLISH_WORLD_LAB_COMPUTE_ENABLED` (on only when exactly `"1"`),
    /// `OPEN_ENGLISH_WORLD_LAB_MAX_CONCURRENT_TASKS` (default 2) and
    /// `OPEN_ENGLISH_WORLD_LAB_MAX_QUEUE` (default 8), with the given task
    /// limits; a count defaults when absent, not a positive number, or out
    /// of range.
    pub fn from_env(
        enabled_value: Option<&str>,
        limits: ComputeLimits,
        max_concurrent_value: Option<&str>,
        max_queue_value: Option<&str>,
    ) -> (e: Self)
        ensures
            e.enabled == (enabled_value matches Some(v) && v@ == "1"@),
            e.limits == limits,
            e.max_concurrent as int == positive_setting(crate::text::opt_str(max_concurrent_value), usize::MAX as int, 2),
            e.max_queue as int == positive_setting(crate::text::opt_str(max_queue_value), usize::MAX as int, 8),
    {
        ComputeEngine {
            enabled: flag_enabled(enabled_value),
            limits,
            max_concurrent: usize_setting(max_concurrent_value, 2),
            max_queue: usize_setting(max_queue_value, 8),
        }
    }
}

/// `"<what> too large (<n> bytes, limit <limit>)"`.
pub open spec fn too_large_message(what: Seq<char>, n: nat, limit: nat) -> Seq<char> {
    what + " too large ("@ + decimal(n) + " bytes, limit "@ + decimal(limit) + ")"@
}

fn too_large(what: &str, n: usize, limit: usize) -> (s: String)
    ensures
        s@ == too_large_message(what@, n as nat, limit as nat),
{
    let mut out: Vec<char> = Vec::new();
    push_str(&mut out, what);
    push_str(&mut out, " too large (");
    push_decimal(&mut out, n as u64);
    push_str(&mut out, " bytes, limit ");
    push_decimal(&mut out, limit as u64);
    push_str(&mut out, ")");
    string_from_chars(&out)
}

/// The size checks made before a module is run: the module, then the input.
pub open spec fn size_check(wasm_len: nat, input_len: nat, limits: ComputeLimits) -> Result<(), Seq<char>> {
    if wasm_len > limits.max_wasm_bytes {
        Err(too_large_message("wasm module"@, wasm_len, limits.max_wasm_bytes as nat))
    } else if input_len > limits.max_input_bytes {
        Err(too_large_message("input"@, input_len, limits.max_input_bytes as nat))
    } else {
        Ok(())
    }
}

/// Refuses a module or input over its limit.
pub fn check_sizes(wasm_len: usize, input_len: usize, limits: &ComputeLimits) -> (r: Result<(), String>)
    ensures
        match (r, size_check(wasm_len as nat, input_len as nat, *limits)) {
            (Ok(()), Ok(())) => true,
            (Err(m), Err(sm)) => m@ == sm,
            _ => false,
        },
{
    if wasm_len > limits.max_wasm_bytes {
        return Err(too_large("wasm module", wasm_len, limits.max_wasm_bytes));
    }
    if input_len > limits.max_input_bytes {
        return Err(too_large("input", input_len, limits.max_input_bytes));
    }
    Ok(())
}

/// The error of a compute request while computation is off.
pub open spec fn compute_disabled_message() -> Seq<char> {
    "world-lab compute execution is disabled on this server (set OPEN_ENGLISH_WORLD_LAB_COMPUTE_ENABLED=1)"@
}

/// The checks made before a task is handed to a worker process: computation
/// must be on, then the sizes.
pub fn precheck_task(enabled: bool, wasm_len: usize, input_len: usize, limits: &ComputeLimits) -> (r: Result<(), String>)
    ensures
        !enabled ==> (r matches Err(m) && m@ == compute_disabled_message()),
        enabled ==> match (r, size_check(wasm_len as nat, input_len as nat, *limits)) {
            (Ok(()), Ok(())) => true,
            (Err(m), Err(sm)) => m@ == sm,
            _ => false,
        },
{
    if !enabled {
        return Err(String::from_str("world-lab compute execution is disabled on this server (set OPEN_ENGLISH_WORLD_LAB_COMPUTE_ENABLED=1)"));
    }
    check_sizes(wasm_len, input_len, limits)
}

/// The refusal of a task when the queue is full.
pub open spec fn queue_full_message(waiting: nat, max_queue: nat) -> Seq<char> {
    "too many world-lab tasks are already queued ("@ + decimal(waiting) + " waiting, limit "@ + decimal(max_queue)
        + ") — try again later"@
}

/// Admits a task to the queue: with `queued_before` tasks already waiting,
/// one more is refused when that would make more than `max_queue`.
pub fn admit_task(queued_before: usize, max_queue: usize) -> (r: Result<(), String>)
    requires
        queued_before < usize::MAX,
    ensures
        queued_before + 1 > max_queue ==> (r matches Err(m) && m@ == queue_full_message(queued_before as nat, max_queue as nat)),
        queued_before + 1 <= max_queue ==> r is Ok,
{
    let queued_now = queued_before + 1;
    if queued_now > max_queue {
        let mut out: Vec<char> = Vec::new();
        push_str(&mut out, "too many world-lab tasks are already queued (");
        push_decimal(&mut out, (queued_now - 1) as u64);
        push_str(&mut out, " waiting, limit ");
        push_decimal(&mut out, max_queue as u64);
        push_str(&mut out, ") — try again later");
        return Err(string_from_chars(&out));
    }
    Ok(())
}

/// Fuel used by a run: the limit less what is left (nothing left when the
/// store cannot say), never below zero.
pub fn fuel_consumed(fuel_limit: u64, remaining: Option<u64>) -> (r: u64)
    ensures
        r as int == (match remaining {
            Some(x) => if x <= fuel_limit {
                fuel_limit - x
            } else {
                0
            },
            None => fuel_limit as int,
        }),
{
    let left = match remaining {
        Some(x) => x,
        None => 0,
    };
    fuel_limit.saturating_sub(left)
}

/// The largest request body a task may have: its module and input in
/// base64 (4/3 of their size) plus 4 KiB for the rest of the JSON.
pub fn task_body_limit(limits: &ComputeLimits) -> (n: usize)
    requires
        (limits.max_wasm_bytes + limits.max_input_bytes) * 4 <= usize::MAX,
    ensures
        n as int == (limits.max_wasm_bytes + limits.max_input_bytes) * 4 / 3 + 4096,
{
    (limits.max_wasm_bytes + limits.max_input_bytes) * 4 / 3 + 4096
}

/// The output of a task as sent back: standard base64, which decodes back
/// to the output.
pub fn encode_task_output(output: &[u8]) -> (r: String)
    ensures
        r@ == crate::agents::base64_encoded(output@),
        crate::agents::base64_decoded(r@) == Some(output@),
{
    proof {
        crate::agents::base64_round_trip(output@);
    }
    crate::agents::base64_encode(output)
}

/// Decodes one base64 field of a task request.
pub fn decode_task_field(field: &str, value: &str) -> (r: Result<Vec<u8>, String>)
    ensures
        r matches Ok(b) ==> crate::agents::base64_decoded(value@) == Some(b@),
        r matches Err(m) ==> crate::agents::base64_decoded(value@) is None
            && crate::text::starts_with(m@, field@ + " is not valid base64: "@),
{
    match crate::agents::base64_decode(value) {
        Ok(b) => Ok(b),
        Err(e) => {
            let mut out: Vec<char> = Vec::new();
            push_str(&mut out, field);
            push_str(&mut out, " is not valid base64: ");
            let ghost pre = out@;
            push_str(&mut out, e.as_str());
            assert(out@.take(pre.len() as int) =~= pre);
            Err(string_from_chars(&out))
        },
    }
}

} // verus!
