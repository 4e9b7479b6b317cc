//! A cache of tool permission decisions, keyed by the tool's name and a
//! content hash of its arguments, with per-record expiry.
use crate::json::{json_text, json_text_of};
use crate::keymap::{keyed, mapping_of, KeyMap};
use serde_json::Value;
use vstd::prelude::*;
use vstd::string::StringExecFns;

verus! {

/// The schema version that a new store carries.
pub const CURRENT_VERSION: u32 = 1;

/// The file, in the permissions directory, that a file-backed store is kept in.
pub const PERMISSIONS_FILE: &'static str = "tool_permissions.json";

/// A call of a tool: its name and its JSON arguments.
#[derive(Debug, Clone)]
pub struct ToolCall {
    pub name: String,
    pub arguments: Value,
}

/// A request to run a tool.
#[derive(Debug, Clone)]
pub struct ToolRequest {
    pub id: String,
    pub tool_call: ToolCall,
}

/// One decision on a tool call.
#[derive(Debug, Clone)]
pub struct ToolPermissionRecord {
    pub tool_name: String,
    pub allowed: bool,
    /// Hex digest of the call's arguments.
    pub context_hash: String,
    pub readable_context: Option<String>,
    /// When the decision was made, in seconds since the epoch.
    pub timestamp: i64,
    /// The decision holds while the time is before this, in seconds since the
    /// epoch; without it the decision holds for good.
    pub expiry: Option<i64>,
}

/// Where a store is kept between runs.
#[derive(Debug)]
pub enum StorageType {
    Memory,
    File { permissions_dir: String },
}

/// The store: for each lookup key, the decisions in the order they were
/// made.
pub struct ToolPermissionStore {
    permissions: KeyMap<Vec<ToolPermissionRecord>>,
    version: u32,
    storage: StorageType,
}

/// The lowercase hex BLAKE3 digest of a text's UTF-8 bytes.
pub uninterp spec fn blake3_hex_of(s: Seq<char>) -> Seq<char>;

/// Relies on blake3::Hasher: update with the text's bytes, finalize, and
/// write the digest in hex.
#[verifier::external_body]
fn blake3_hex(s: &str) -> (r: String)
    ensures
        r@ == blake3_hex_of(s@),
{
    let mut hasher = blake3::Hasher::new();
    hasher.update(s.as_bytes());
    hasher.finalize().to_hex().to_string()
}

/// The text that the arguments are hashed as: their compact JSON, or nothing
/// where they cannot be written.
pub open spec fn arguments_text_of(args: Value) -> Seq<char> {
    match json_text_of(args) {
        Some(t) => t,
        None => Seq::empty(),
    }
}

/// The context hash of a call's arguments.
pub open spec fn context_hash_of(args: Value) -> Seq<char> {
    blake3_hex_of(arguments_text_of(args))
}

/// The key that the decisions on a call are kept under: the tool's name, a
/// colon and the context hash.
pub open spec fn lookup_key_of(call: ToolCall) -> Seq<char> {
    call.name@ + ":"@ + context_hash_of(call.arguments)
}

/// A decision still holds at `now`.
pub open spec fn is_live(r: ToolPermissionRecord, now: i64) -> bool {
    match r.expiry {
        Some(e) => now < e,
        None => true,
    }
}

/// The decisions of a list that still hold at `now`, in their order.
pub open spec fn live_records(s: Seq<ToolPermissionRecord>, now: i64) -> Seq<ToolPermissionRecord>
    decreases s.len(),
{
    if s.len() == 0 {
        s
    } else if is_live(s.last(), now) {
        live_records(s.drop_last(), now).push(s.last())
    } else {
        live_records(s.drop_last(), now)
    }
}

/// The last decision of a list that still holds at `now`, if any.
pub open spec fn latest_decision(s: Seq<ToolPermissionRecord>, now: i64) -> Option<bool>
    decreases s.len(),
{
    if s.len() == 0 {
        None
    } else if is_live(s.last(), now) {
        Some(s.last().allowed)
    } else {
        latest_decision(s.drop_last(), now)
    }
}

/// What a store answers for `key` at `now`.
pub open spec fn decision_in(
    records: Map<Seq<char>, Seq<ToolPermissionRecord>>,
    key: Seq<char>,
    now: i64,
) -> Option<bool> {
    if records.contains_key(key) {
        latest_decision(records[key], now)
    } else {
        None
    }
}

/// The records left after dropping every decision that no longer holds at
/// `now`, and every key left with none.
pub open spec fn pruned(records: Map<Seq<char>, Seq<ToolPermissionRecord>>, now: i64) -> Map<
    Seq<char>,
    Seq<ToolPermissionRecord>,
> {
    Map::new(
        |k: Seq<char>| records.contains_key(k) && live_records(records[k], now).len() > 0,
        |k: Seq<char>| live_records(records[k], now),
    )
}

/// The decisions kept under `key`, none where the key is absent.
pub open spec fn records_under(
    records: Map<Seq<char>, Seq<ToolPermissionRecord>>,
    key: Seq<char>,
) -> Seq<ToolPermissionRecord> {
    if records.contains_key(key) {
        records[key]
    } else {
        Seq::empty()
    }
}

/// `r` is the decision made at `now` on the request: it names the tool,
/// carries the context hash and a readable echo, and expires `expiry_secs`
/// after `now` where that is given.
pub open spec fn is_new_record(
    r: ToolPermissionRecord,
    request: &ToolRequest,
    allowed: bool,
    expiry_secs: Option<u64>,
    now: i64,
) -> bool {
    &&& r.tool_name@ == request.tool_call.name@
    &&& r.allowed == allowed
    &&& r.context_hash@ == context_hash_of(request.tool_call.arguments)
    &&& r.readable_context matches Some(t) && t@ == readable_of(request.tool_call)
    &&& r.timestamp == now
    &&& r.expiry == match expiry_secs {
        Some(d) => Some((now + d) as i64),
        None => None,
    }
}

/// `after` is `before` with the decision on `request` made at `now`
/// appended under the request's lookup key, and nothing else changed.
pub open spec fn is_recorded(
    before: Map<Seq<char>, Seq<ToolPermissionRecord>>,
    after: Map<Seq<char>, Seq<ToolPermissionRecord>>,
    request: &ToolRequest,
    allowed: bool,
    expiry_secs: Option<u64>,
    now: i64,
) -> bool {
    let key = lookup_key_of(request.tool_call);
    &&& after == before.insert(key, after[key])
    &&& after[key].len() > 0
    &&& after[key].drop_last() == records_under(before, key)
    &&& is_new_record(after[key].last(), request, allowed, expiry_secs, now)
}

/// The readable echo of a call.
pub open spec fn readable_of(call: ToolCall) -> Seq<char> {
    "Tool: "@ + call.name@ + ", Args: "@ + arguments_text_of(call.arguments)
}

/// The lists of a mapping seen as sequences.
pub open spec fn lists_view(m: Map<Seq<char>, Vec<ToolPermissionRecord>>) -> Map<
    Seq<char>,
    Seq<ToolPermissionRecord>,
> {
    m.map_values(|v: Vec<ToolPermissionRecord>| v@)
}

impl ToolPermissionRecord {
    /// A copy of the record.
    pub fn duplicate(&self) -> (r: ToolPermissionRecord)
        ensures
            r == *self,
    {
        let readable_context = match &self.readable_context {
            Some(s) => Some(s.clone()),
            None => None,
        };
        ToolPermissionRecord {
            tool_name: self.tool_name.clone(),
            allowed: self.allowed,
            context_hash: self.context_hash.clone(),
            readable_context,
            timestamp: self.timestamp,
            expiry: self.expiry,
        }
    }
}

impl ToolRequest {
    /// A human-readable echo of the request: the tool's name and its
    /// arguments as JSON.
    pub fn to_readable_string(&self) -> (r: String)
        ensures
            r@ == readable_of(self.tool_call),
    {
        let args = match json_text(&self.tool_call.arguments) {
            Ok(t) => t,
            Err(_) => String::new(),
        };
        let out = String::from_str("Tool: ");
        let out = out.concat(self.tool_call.name.as_str());
        let out = out.concat(", Args: ");
        out.concat(args.as_str())
    }
}

/// The context hash of a call's arguments.
fn hash_tool_context(request: &ToolRequest) -> (r: String)
    ensures
        r@ == context_hash_of(request.tool_call.arguments),
{
    let text = match json_text(&request.tool_call.arguments) {
        Ok(t) => t,
        Err(_) => String::new(),
    };
    blake3_hex(text.as_str())
}

/// The key that the decisions on a request are kept under.
fn lookup_key(request: &ToolRequest, hash: &String) -> (r: String)
    requires
        hash@ == context_hash_of(request.tool_call.arguments),
    ensures
        r@ == lookup_key_of(request.tool_call),
{
    let key = request.tool_call.name.clone();
    let key = key.concat(":");
    key.concat(hash.as_str())
}

/// The decisions of a list that still hold at `now`.
fn live_copy(list: &Vec<ToolPermissionRecord>, now: i64) -> (r: Vec<ToolPermissionRecord>)
    ensures
        r@ == live_records(list@, now),
{
    let mut out: Vec<ToolPermissionRecord> = Vec::new();
    let mut i: usize = 0;
    assert(list@.take(0) =~= Seq::<ToolPermissionRecord>::empty());
    while i < list.len()
        invariant
            i <= list@.len(),
            out@ == live_records(list@.take(i as int), now),
        decreases list@.len() - i,
    {
        let rec = &list[i];
        proof {
            assert(list@.take(i + 1).drop_last() =~= list@.take(i as int));
            assert(list@.take(i + 1).last() == list@[i as int]);
        }
        let live = match rec.expiry {
            Some(e) => now < e,
            None => true,
        };
        if live {
            out.push(rec.duplicate());
        }
        i = i + 1;
    }
    assert(list@.take(i as int) =~= list@);
    out
}

impl ToolPermissionStore {
    /// The store's mapping is well formed.
    pub closed spec fn wf(&self) -> bool {
        self.permissions.wf()
    }

    /// For each lookup key, the decisions in the order they were made.
    pub closed spec fn records(&self) -> Map<Seq<char>, Seq<ToolPermissionRecord>> {
        lists_view(self.permissions@)
    }

    /// The schema version.
    pub closed spec fn version_spec(&self) -> u32 {
        self.version
    }

    /// Where the store is kept.
    pub closed spec fn storage_spec(&self) -> StorageType {
        self.storage
    }

    /// An empty store held only in memory.
    pub fn new_in_memory() -> (r: Self)
        ensures
            r.wf(),
            r.records() == Map::<Seq<char>, Seq<ToolPermissionRecord>>::empty(),
            r.version_spec() == CURRENT_VERSION,
            r.storage_spec() is Memory,
    {
        let r = ToolPermissionStore {
            permissions: KeyMap::new(),
            version: CURRENT_VERSION,
            storage: StorageType::Memory,
        };
        assert(r.records() =~= Map::<Seq<char>, Seq<ToolPermissionRecord>>::empty());
        r
    }

    /// An empty store: in memory where the in-memory signal is present, else
    /// kept in `permissions_dir`.
    pub fn new(in_memory: bool, permissions_dir: String) -> (r: Self)
        ensures
            r.wf(),
            r.records() == Map::<Seq<char>, Seq<ToolPermissionRecord>>::empty(),
            r.version_spec() == CURRENT_VERSION,
            in_memory ==> r.storage_spec() is Memory,
            !in_memory ==> r.storage_spec() == (StorageType::File { permissions_dir }),
    {
        if in_memory {
            return Self::new_in_memory();
        }
        let r = ToolPermissionStore {
            permissions: KeyMap::new(),
            version: CURRENT_VERSION,
            storage: StorageType::File { permissions_dir },
        };
        assert(r.records() =~= Map::<Seq<char>, Seq<ToolPermissionRecord>>::empty());
        r
    }

    /// Where the store is kept.
    pub fn storage(&self) -> (r: &StorageType)
        ensures
            *r == self.storage_spec(),
    {
        &self.storage
    }

    /// The schema version.
    pub fn version(&self) -> (r: u32)
        ensures
            r == self.version_spec(),
    {
        self.version
    }

    /// The decisions, for each lookup key, in the order they were made.
    pub fn permissions(&self) -> (r: &KeyMap<Vec<ToolPermissionRecord>>)
        requires
            self.wf(),
        ensures
            r.wf(),
            lists_view(r@) == self.records(),
    {
        &self.permissions
    }

    /// The last decision on this request that still holds at `now`, or
    /// `None` where there is none.
    pub fn check_permission(&self, tool_request: &ToolRequest, now: i64) -> (r: Option<bool>)
        requires
            self.wf(),
        ensures
            r == decision_in(self.records(), lookup_key_of(tool_request.tool_call), now),
    {
        let hash = hash_tool_context(tool_request);
        let key = lookup_key(tool_request, &hash);
        match self.permissions.get(key.as_str()) {
            None => None,
            Some(records) => {
                let ghost s = records@;
                assert(s == self.records()[key@]);
                assert(s.take(s.len() as int) =~= s);
                let mut i: usize = records.len();
                while i > 0
                    invariant
                        i <= s.len(),
                        s == records@,
                        self.records().contains_key(key@),
                        s == self.records()[key@],
                        key@ == lookup_key_of(tool_request.tool_call),
                        latest_decision(s, now) == latest_decision(s.take(i as int), now),
                    decreases i,
                {
                    let rec = &records[i - 1];
                    proof {
                        assert(s.take(i as int).drop_last() =~= s.take(i - 1));
                        assert(s.take(i as int).last() == s[i - 1]);
                    }
                    let live = match rec.expiry {
                        Some(e) => now < e,
                        None => true,
                    };
                    if live {
                        assert(is_live(s.take(i as int).last(), now));
                        assert(latest_decision(s.take(i as int), now) == Some(rec.allowed));
                        return Some(rec.allowed);
                    }
                    i = i - 1;
                }
                None
            },
        }
    }

    /// Appends a decision on this request, made at `now` and holding for
    /// `expiry_secs` seconds where given, else for good.
    pub fn record_permission(
        &mut self,
        tool_request: &ToolRequest,
        allowed: bool,
        expiry_secs: Option<u64>,
        now: i64,
    )
        requires
            old(self).wf(),
            expiry_secs matches Some(d) ==> d <= i64::MAX && now + d <= i64::MAX,
        ensures
            final(self).wf(),
            final(self).version_spec() == old(self).version_spec(),
            final(self).storage_spec() == old(self).storage_spec(),
            is_recorded(
                old(self).records(),
                final(self).records(),
                tool_request,
                allowed,
                expiry_secs,
                now,
            ),
    {
        let context_hash = hash_tool_context(tool_request);
        let key = lookup_key(tool_request, &context_hash);
        let expiry = match expiry_secs {
            Some(d) => Some(now + d as i64),
            None => None,
        };
        let record = ToolPermissionRecord {
            tool_name: tool_request.tool_call.name.clone(),
            allowed,
            context_hash,
            readable_context: Some(tool_request.to_readable_string()),
            timestamp: now,
            expiry,
        };
        let ghost old_records = self.records();
        let mut list = match self.permissions.remove(key.as_str()) {
            Some(l) => l,
            None => Vec::new(),
        };
        list.push(record);
        self.permissions.insert(key, list);
        proof {
            assert(self.records() =~= old_records.insert(key@, self.records()[key@]));
            assert(self.records()[key@].drop_last() =~= records_under(old_records, key@));
        }
    }

    /// Drops every decision that no longer holds at `now`, and every key
    /// left with none; tells whether any decision was dropped.
    pub fn cleanup_expired(&mut self, now: i64) -> (changed: bool)
        requires
            old(self).wf(),
        ensures
            final(self).wf(),
            final(self).records() == pruned(old(self).records(), now),
            final(self).version_spec() == old(self).version_spec(),
            final(self).storage_spec() == old(self).storage_spec(),
            changed == exists|k: Seq<char>|
                old(self).records().contains_key(k) && #[trigger] live_records(
                    old(self).records()[k],
                    now,
                ).len() < old(self).records()[k].len(),
    {
        let ghost old_records = self.records();
        let ghost pairs = self.permissions.pairs();
        proof {
            self.permissions.lemma_pairs();
        }
        let n = self.permissions.pair_count();
        let mut kept: KeyMap<Vec<ToolPermissionRecord>> = KeyMap::new();
        let mut changed = false;
        let mut i: usize = 0;
        while i < n
            invariant
                self.permissions.wf(),
                self.records() == old_records,
                self.permissions.pairs() == pairs,
                n == pairs.len(),
                i <= n,
                kept.wf(),
                forall|k: Seq<char>| #[trigger]
                    old_records.contains_key(k) ==> exists|j: int|
                        0 <= j < pairs.len() && pairs[j].0@ == k,
                forall|j: int|
                    0 <= j < pairs.len() ==> old_records.contains_key(#[trigger] pairs[j].0@)
                        && old_records[pairs[j].0@] == pairs[j].1@,
                forall|k: Seq<char>| #[trigger]
                    lists_view(kept@).contains_key(k) <==> (exists|j: int|
                        0 <= j < i && pairs[j].0@ == k) && live_records(old_records[k], now).len()
                        > 0,
                forall|k: Seq<char>| #[trigger]
                    lists_view(kept@).contains_key(k) ==> lists_view(kept@)[k] == live_records(
                        old_records[k],
                        now,
                    ),
                changed == exists|j: int|
                    0 <= j < i && #[trigger] live_records(old_records[pairs[j].0@], now).len()
                        < old_records[pairs[j].0@].len(),
            decreases n - i,
        {
            let (key, list) = self.permissions.entry_at(i);
            let live = live_copy(list, now);
            let ghost k = key@;
            assert(pairs[i as int].0@ == k);
            assert(old_records[k] == list@);
            if live.len() < list.len() {
                changed = true;
            }
            let ghost before = lists_view(kept@);
            if live.len() > 0 {
                let ghost lv = live@;
                kept.insert(key.clone(), live);
                assert(lists_view(kept@) =~= before.insert(k, lv));
            }
            i = i + 1;
            assert forall|k2: Seq<char>| #[trigger]
                lists_view(kept@).contains_key(k2) <==> (exists|j: int|
                    0 <= j < i && pairs[j].0@ == k2) && live_records(old_records[k2], now).len()
                    > 0 by {
                if k2 == k {
                    assert(pairs[i - 1].0@ == k2);
                } else if (exists|j: int| 0 <= j < i && pairs[j].0@ == k2) {
                    let j = choose|j: int| 0 <= j < i && pairs[j].0@ == k2;
                    assert(j < i - 1);
                }
            }
            assert(changed == exists|j: int|
                0 <= j < i && #[trigger] live_records(old_records[pairs[j].0@], now).len()
                    < old_records[pairs[j].0@].len()) by {
                if live_records(old_records[k], now).len() < old_records[k].len() {
                    assert(live_records(old_records[pairs[i - 1].0@], now).len()
                        < old_records[pairs[i - 1].0@].len());
                }
            }
        }
        proof {
            assert(lists_view(kept@) =~= pruned(old_records, now)) by {
                assert forall|k: Seq<char>|
                    pruned(old_records, now).contains_key(k) implies lists_view(
                        kept@,
                    ).contains_key(k) by {
                    let j = choose|j: int| 0 <= j < pairs.len() && pairs[j].0@ == k;
                }
            }
            if changed {
                let j = choose|j: int|
                    0 <= j < i && #[trigger] live_records(old_records[pairs[j].0@], now).len()
                        < old_records[pairs[j].0@].len();
                assert(old_records.contains_key(pairs[j].0@));
            }
            if exists|k: Seq<char>|
                old_records.contains_key(k) && #[trigger] live_records(old_records[k], now).len()
                    < old_records[k].len() {
                let k = choose|k: Seq<char>|
                    old_records.contains_key(k) && #[trigger] live_records(old_records[k], now).len()
                        < old_records[k].len();
                let j = choose|j: int| 0 <= j < pairs.len() && pairs[j].0@ == k;
                assert(live_records(old_records[pairs[j].0@], now).len()
                    < old_records[pairs[j].0@].len());
            }
        }
        self.permissions = kept;
        changed
    }
}

impl ToolPermissionStore {
    /// A store rebuilt from saved pairs (a later pair of the same key
    /// winning), kept where `storage` says.
    pub fn from_saved(
        saved: Vec<(String, Vec<ToolPermissionRecord>)>,
        version: u32,
        storage: StorageType,
    ) -> (r: Self)
        ensures
            r.wf(),
            r.records() == lists_view(mapping_of(keyed(saved@))),
            r.version_spec() == version,
            r.storage_spec() == storage,
    {
        ToolPermissionStore { permissions: KeyMap::from_pairs(saved), version, storage }
    }

    /// The store at start-up: empty in memory where the in-memory signal is
    /// present; else the saved store (`None` where there is no file yet),
    /// pruned of what no longer holds at `now`. The flag tells whether
    /// pruning dropped anything, so that the file is to be rewritten.
    pub fn load(
        in_memory: bool,
        permissions_dir: String,
        saved: Option<(Vec<(String, Vec<ToolPermissionRecord>)>, u32)>,
        now: i64,
    ) -> (r: (Self, bool))
        ensures
            r.0.wf(),
            in_memory ==> r.0.storage_spec() is Memory,
            !in_memory ==> r.0.storage_spec() == (StorageType::File { permissions_dir }),
            in_memory || saved is None ==> r.0.records() == Map::<
                Seq<char>,
                Seq<ToolPermissionRecord>,
            >::empty() && r.0.version_spec() == CURRENT_VERSION && !r.1,
            !in_memory && saved is Some ==> ({
                let loaded = lists_view(mapping_of(keyed(saved->Some_0.0@)));
                &&& r.0.records() == pruned(loaded, now)
                &&& r.0.version_spec() == saved->Some_0.1
                &&& r.1 == exists|k: Seq<char>|
                    loaded.contains_key(k) && #[trigger] live_records(loaded[k], now).len()
                        < loaded[k].len()
            }),
    {
        let store = Self::new(in_memory, permissions_dir);
        if in_memory {
            return (store, false);
        }
        match saved {
            None => (store, false),
            Some((pairs, version)) => {
                let mut loaded = Self::from_saved(pairs, version, store.storage);
                let changed = loaded.cleanup_expired(now);
                (loaded, changed)
            },
        }
    }
}

/// A decision recorded with no expiry is what a check of the same request
/// answers from then on; a request with another lookup key (another name, or
/// arguments of another hash) gets what it got before, which for a store that
/// held nothing under that key is no decision.
pub proof fn law_recorded_decision_answers(
    before: Map<Seq<char>, Seq<ToolPermissionRecord>>,
    after: Map<Seq<char>, Seq<ToolPermissionRecord>>,
    request: ToolRequest,
    other: ToolRequest,
    allowed: bool,
    now: i64,
    later: i64,
)
    requires
        is_recorded(before, after, &request, allowed, None, now),
        lookup_key_of(other.tool_call) != lookup_key_of(request.tool_call),
    ensures
        decision_in(after, lookup_key_of(request.tool_call), later) == Some(allowed),
        decision_in(after, lookup_key_of(other.tool_call), later) == decision_in(
            before,
            lookup_key_of(other.tool_call),
            later,
        ),
        !before.contains_key(lookup_key_of(other.tool_call)) ==> decision_in(
            after,
            lookup_key_of(other.tool_call),
            later,
        ) is None,
{
}

/// A decision whose expiry has passed counts as never recorded: a check
/// answers what it answered without it, and pruning leaves no trace of it.
pub proof fn law_expired_decision_forgotten(
    before: Map<Seq<char>, Seq<ToolPermissionRecord>>,
    after: Map<Seq<char>, Seq<ToolPermissionRecord>>,
    request: ToolRequest,
    allowed: bool,
    secs: u64,
    now: i64,
    later: i64,
)
    requires
        is_recorded(before, after, &request, allowed, Some(secs), now),
        now + secs <= i64::MAX,
        later >= now + secs,
    ensures
        decision_in(after, lookup_key_of(request.tool_call), later) == decision_in(
            before,
            lookup_key_of(request.tool_call),
            later,
        ),
        pruned(after, later) == pruned(before, later),
{
    let key = lookup_key_of(request.tool_call);
    let s = after[key];
    assert(!is_live(s.last(), later));
    assert(latest_decision(s, later) == latest_decision(s.drop_last(), later));
    assert(latest_decision(Seq::<ToolPermissionRecord>::empty(), later) is None);
    assert(live_records(s, later) == live_records(records_under(before, key), later));
    assert(live_records(Seq::<ToolPermissionRecord>::empty(), later).len() == 0);
    assert(pruned(after, later) =~= pruned(before, later));
}

/// Of two decisions appended under one lookup key, a check answers the later
/// one while it holds, and the earlier one once only that holds.
pub proof fn law_latest_decision_wins(
    first: Map<Seq<char>, Seq<ToolPermissionRecord>>,
    second: Map<Seq<char>, Seq<ToolPermissionRecord>>,
    third: Map<Seq<char>, Seq<ToolPermissionRecord>>,
    request: ToolRequest,
    allowed1: bool,
    expiry1: Option<u64>,
    now1: i64,
    allowed2: bool,
    expiry2: Option<u64>,
    now2: i64,
    later: i64,
)
    requires
        is_recorded(first, second, &request, allowed1, expiry1, now1),
        is_recorded(second, third, &request, allowed2, expiry2, now2),
    ensures
        is_live(third[lookup_key_of(request.tool_call)].last(), later) ==> decision_in(
            third,
            lookup_key_of(request.tool_call),
            later,
        ) == Some(allowed2),
        !is_live(third[lookup_key_of(request.tool_call)].last(), later) && is_live(
            second[lookup_key_of(request.tool_call)].last(),
            later,
        ) ==> decision_in(third, lookup_key_of(request.tool_call), later) == Some(allowed1),
{
    let key = lookup_key_of(request.tool_call);
    assert(second.contains_key(key));
    assert(records_under(second, key) == second[key]);
    assert(third[key].drop_last() == second[key]);
    assert(third[key].len() > 0);
    if !is_live(third[key].last(), later) {
        assert(latest_decision(third[key], later) == latest_decision(second[key], later));
    }
}

} // verus!
