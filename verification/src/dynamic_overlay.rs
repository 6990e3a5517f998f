//! Dynamic circuits: circuits added at runtime from a shaped device, kept
//! as overlays on top of the circuits of the last committed batch.
use vstd::prelude::*;
use std::collections::hash_map::DefaultHasher;
use std::hash::Hasher;
use crate::grouped_events::{chars_lt, compare_chars, keys_sorted, lemma_chars_lt_transitive, lemma_chars_lt_trichotomy};
use crate::text::{
    append_str, chars_of, dec_seq, dec_string, join_seqs, join_strings, lower_chars, lower_seq, owned, string_of,
    string_seqs, trim_chars, trim_seq,
};
use vstd::utf8::encode_utf8;
use vstd::std_specs::hash::DefaultHasherAdditionalSpecFns;
use std::collections::{HashMap, HashSet};
use crate::commands::{clone_exact, opt_cmds_view, to_prune_spec, BakeryCommands};
use crate::config::{BakeryConfig, LazyQueueMode};
use crate::tc_handle::vec_eq;
use crate::maps::{lemma_filter_prefix_ends, lemma_filter_prefix_step, map_keys};
use crate::mapped_limit::{existing_mapped, is_mapped_add_circuit, mapped_hash_of, MappedLimitStats, ResolvedMappedLimit};
use crate::migration::{
    find_free_dynamic_circuit_minor, minor_taken, used_circuit_minors_for_majors,
    used_pending_migration_shadow_minors_for_majors, used_site_minors_for_majors, Migration,
};
use crate::site_tree::{site_class_handles, site_handles_of, ACTIVE_RUNTIME_MINOR_START};
use crate::tc_handle::TcHandle;
use crate::runtime::sorted_keys;
use crate::summary::sorted_listing;

verus! {

/// Bakery's stable hash of a name (node, circuit or device id): the
/// standard `DefaultHasher` over the name's UTF-8 bytes, as a signed value.
pub open spec fn runtime_hash(text: Seq<char>) -> i64 {
    DefaultHasher::spec_finish(Seq::empty().push(encode_utf8(text))) as i64
}

/// Hashes a name the way Bakery keys nodes, circuits and devices.
pub fn runtime_hash_to_i64(text: &str) -> (r: i64)
    ensures
        r == runtime_hash(text@),
{
    let mut hasher = DefaultHasher::new();
    hasher.write(text.as_bytes());
    hasher.finish() as i64
}

/// A shaped device, as Bakery keeps it for a dynamic circuit.
#[derive(Debug)]
pub struct DynamicShapedDevice {
    /// Circuit identifier.
    pub circuit_id: String,
    /// Circuit display name.
    pub circuit_name: String,
    /// Device identifier.
    pub device_id: String,
    /// Name of the parent node.
    pub parent_node: String,
    /// Hash of `circuit_id`.
    pub circuit_hash: i64,
    /// Hash of `device_id`.
    pub device_hash: i64,
    /// Hash of `parent_node`.
    pub parent_hash: i64,
    /// IPv4 networks: address text and prefix length.
    pub ipv4: Vec<(String, u32)>,
    /// IPv6 networks: address text and prefix length.
    pub ipv6: Vec<(String, u32)>,
    /// Minimum download rate (Mbps, `f32` bits).
    pub download_min_mbps: u32,
    /// Minimum upload rate (Mbps, `f32` bits).
    pub upload_min_mbps: u32,
    /// Maximum download rate (Mbps, `f32` bits).
    pub download_max_mbps: u32,
    /// Maximum upload rate (Mbps, `f32` bits).
    pub upload_max_mbps: u32,
    /// SQM override, if any.
    pub sqm_override: Option<String>,
}

/// The device with its three hashes computed from its names.
pub open spec fn rehashed(d: DynamicShapedDevice) -> DynamicShapedDevice {
    DynamicShapedDevice {
        circuit_hash: runtime_hash(d.circuit_id@),
        device_hash: runtime_hash(d.device_id@),
        parent_hash: runtime_hash(d.parent_node@),
        ..d
    }
}

/// Recomputes a device's circuit, device and parent hashes from its names.
pub fn recompute_shaped_hashes(device: &mut DynamicShapedDevice)
    ensures
        *final(device) == rehashed(*old(device)),
{
    device.circuit_hash = runtime_hash_to_i64(device.circuit_id.as_str());
    device.device_hash = runtime_hash_to_i64(device.device_id.as_str());
    device.parent_hash = runtime_hash_to_i64(device.parent_node.as_str());
}

/// The key circuit ids are matched by: trimmed, ASCII lower-cased.
pub fn normalize_circuit_id_key(value: &str) -> (r: String)
    ensures
        r@ == lower_seq(trim_seq(value@)),
{
    string_of(&lower_chars(&trim_chars(&chars_of(value))))
}

/// `<ip>/<prefix>`
pub open spec fn network_text(n: (String, u32)) -> Seq<char> {
    n.0@ + "/"@ + dec_seq(n.1 as nat)
}

/// The device's networks written `<ip>/<prefix>`, IPv4 then IPv6.
pub open spec fn device_networks(d: DynamicShapedDevice) -> Seq<Seq<char>> {
    (d.ipv4@ + d.ipv6@).map_values(|n: (String, u32)| network_text(n))
}

/// Inserts `s` into a strictly ordered list unless it is there already.
fn insert_sorted_unique(v: &mut Vec<String>, s: String)
    requires
        keys_sorted(string_seqs(old(v)@)),
    ensures
        keys_sorted(string_seqs(final(v)@)),
        string_seqs(final(v)@).to_set() == string_seqs(old(v)@).to_set().insert(s@),
{
    let ghost v0 = string_seqs(v@);
    let sc = chars_of(s.as_str());
    let mut pos: usize = 0;
    let mut past = false;
    while pos < v.len() && !past
        invariant
            pos <= v@.len(),
            v0 == string_seqs(v@),
            keys_sorted(v0),
            sc@ == s@,
            forall|j: int| 0 <= j < pos ==> chars_lt(#[trigger] v0[j], s@),
            past ==> pos < v0.len() && chars_lt(s@, v0[pos as int]),
        decreases v@.len() - pos + if past { 0int } else { 1int },
    {
        let c = compare_chars(&chars_of(v[pos].as_str()), &sc);
        assert(v0[pos as int] == v@[pos as int]@);
        if c == 0 {
            proof {
                assert(v0.contains(s@));
                assert(v0.to_set() =~= v0.to_set().insert(s@));
            }
            return;
        }
        if c > 0 {
            past = true;
        } else {
            pos = pos + 1;
        }
    }
    proof {
        assert forall|j: int| pos <= j < v0.len() implies chars_lt(s@, #[trigger] v0[j]) by {
            if j > pos {
                assert(chars_lt(v0[pos as int], v0[j]));
                lemma_chars_lt_transitive(s@, v0[pos as int], v0[j]);
            }
        }
    }
    v.insert(pos, s);
    proof {
        let nv = string_seqs(v@);
        assert(nv =~= v0.insert(pos as int, s@));
        assert forall|i: int, j: int| 0 <= i < j < nv.len() implies chars_lt(#[trigger] nv[i], #[trigger] nv[j]) by {
            if j < pos {
                assert(nv[i] == v0[i] && nv[j] == v0[j]);
            } else if j == pos {
                assert(nv[i] == v0[i]);
            } else if i < pos {
                assert(nv[i] == v0[i] && nv[j] == v0[j - 1]);
                lemma_chars_lt_transitive(v0[i], s@, v0[j - 1]);
            } else if i == pos {
                assert(nv[j] == v0[j - 1]);
            } else {
                assert(nv[i] == v0[i - 1] && nv[j] == v0[j - 1]);
            }
        }
        assert forall|x: Seq<char>| nv.to_set().contains(x) <==> v0.to_set().insert(s@).contains(x) by {
            if nv.contains(x) {
                let k = choose|k: int| 0 <= k < nv.len() && nv[k] == x;
                if k < pos {
                    assert(v0[k] == x);
                } else if k > pos {
                    assert(v0[k - 1] == x);
                }
            }
            if v0.contains(x) {
                let k = choose|k: int| 0 <= k < v0.len() && v0[k] == x;
                if k < pos {
                    assert(nv[k] == x);
                } else {
                    assert(nv[k + 1] == x);
                }
            }
            if x == s@ {
                assert(nv[pos as int] == x);
            }
        }
        assert(nv.to_set() =~= v0.to_set().insert(s@));
    }
}

/// Adds `<ip>/<prefix>` of each network to the ordered list.
fn add_networks(v: &mut Vec<String>, nets: &Vec<(String, u32)>)
    requires
        keys_sorted(string_seqs(old(v)@)),
    ensures
        keys_sorted(string_seqs(final(v)@)),
        string_seqs(final(v)@).to_set() == string_seqs(old(v)@).to_set().union(
            nets@.map_values(|n: (String, u32)| network_text(n)).to_set(),
        ),
{
    let ghost start = string_seqs(v@).to_set();
    let mut i: usize = 0;
    while i < nets.len()
        invariant
            i <= nets@.len(),
            keys_sorted(string_seqs(v@)),
            string_seqs(v@).to_set() == start.union(
                nets@.take(i as int).map_values(|n: (String, u32)| network_text(n)).to_set(),
            ),
        decreases nets@.len() - i,
    {
        let mut text = nets[i].0.clone();
        append_str(&mut text, "/");
        append_str(&mut text, dec_string(nets[i].1 as u64).as_str());
        let ghost added = text@;
        assert(added == network_text(nets@[i as int]));
        insert_sorted_unique(v, text);
        proof {
            let f = |n: (String, u32)| network_text(n);
            let a = nets@.take(i as int).map_values(f);
            let b = nets@.take(i + 1).map_values(f);
            assert(b =~= a.push(added));
            assert forall|x: Seq<char>| b.to_set().contains(x) <==> a.to_set().insert(added).contains(x) by {
                crate::summary::lemma_push_contains(a, added, x);
            }
            assert(string_seqs(v@).to_set() =~= start.union(b.to_set()));
        }
        i = i + 1;
    }
    assert(nets@.take(nets@.len() as int) =~= nets@);
}

/// The device's networks as one `,`-separated list: each network written
/// `<ip>/<prefix>`, sorted, duplicates removed.
pub fn ip_list_from_shaped_device(device: &DynamicShapedDevice) -> (r: String)
    ensures
        exists|s: Seq<Seq<char>>|
            {
                &&& keys_sorted(s)
                &&& s.to_set() == device_networks(*device).to_set()
                &&& r@ == join_seqs(s, ","@)
            },
{
    let mut ips: Vec<String> = Vec::new();
    assert(string_seqs(ips@).to_set() =~= Set::<Seq<char>>::empty());
    add_networks(&mut ips, &device.ipv4);
    add_networks(&mut ips, &device.ipv6);
    proof {
        let f = |n: (String, u32)| network_text(n);
        assert((device.ipv4@ + device.ipv6@).map_values(f) =~= device.ipv4@.map_values(f) + device.ipv6@.map_values(
            f,
        ));
        assert forall|x: Seq<char>|
            device_networks(*device).to_set().contains(x) <==> (device.ipv4@.map_values(f).to_set().contains(x)
                || device.ipv6@.map_values(f).to_set().contains(x)) by {
            let a = device.ipv4@.map_values(f);
            let b = device.ipv6@.map_values(f);
            if (a + b).contains(x) {
                let k = choose|k: int| 0 <= k < (a + b).len() && (a + b)[k] == x;
                if k < a.len() {
                    assert(a[k] == x);
                } else {
                    assert(b[k - a.len()] == x);
                }
            }
            if a.contains(x) {
                let k = choose|k: int| 0 <= k < a.len() && a[k] == x;
                assert((a + b)[k] == x);
            }
            if b.contains(x) {
                let k = choose|k: int| 0 <= k < b.len() && b[k] == x;
                assert((a + b)[k + a.len()] == x);
            }
        }
        assert(string_seqs(ips@).to_set() =~= device_networks(*device).to_set());
    }
    join_strings(&ips, ",")
}

/// Whether a name is empty once trimmed.
pub open spec fn blank(s: Seq<char>) -> bool {
    trim_seq(s).len() == 0
}

/// Whether a name is empty once trimmed.
pub fn is_blank(s: &str) -> (r: bool)
    ensures
        r == blank(s@),
{
    trim_chars(&chars_of(s)).len() == 0
}

/// A dynamic circuit kept as an overlay, with the minor it was given.
#[derive(Debug)]
pub struct DynamicCircuitOverlayEntry {
    /// The device the circuit is built from.
    pub shaped_device: DynamicShapedDevice,
    /// Class minor assigned to the circuit, once allocated.
    pub class_minor: Option<u16>,
}

/// The minors taken under a pair of class majors (downlink, uplink) by the
/// sites, circuits and unfinished migrations.
pub fn used_minors_for_majors(
    sites: &HashMap<i64, BakeryCommands>,
    circuits: &HashMap<i64, BakeryCommands>,
    migrations: &HashMap<i64, Migration>,
    down_major: u16,
    up_major: u16,
) -> (r: (HashSet<u16>, HashSet<u16>))
    ensures
        forall|m: u16| #[trigger] r.0@.contains(m) <==> minor_taken(sites@, circuits@, migrations@, down_major, false, m),
        forall|m: u16| #[trigger] r.1@.contains(m) <==> minor_taken(sites@, circuits@, migrations@, up_major, true, m),
{
    let mut used_down: HashSet<u16> = HashSet::new();
    let mut used_up: HashSet<u16> = HashSet::new();
    used_site_minors_for_majors(sites, down_major, up_major, &mut used_down, &mut used_up);
    used_circuit_minors_for_majors(circuits, down_major, up_major, &mut used_down, &mut used_up);
    used_pending_migration_shadow_minors_for_majors(migrations, down_major, up_major, &mut used_down, &mut used_up);
    (used_down, used_up)
}

/// `r` is the minor an overlay gets: the one it had when that is a runtime
/// minor (from [`ACTIVE_RUNTIME_MINOR_START`]) free in both directions,
/// else the least free runtime minor up to `0xFFFE`, if any.
pub open spec fn overlay_minor_choice(r: Option<u16>, desired: Option<u16>, down: Set<u16>, up: Set<u16>) -> bool {
    if desired matches Some(m) && m >= ACTIVE_RUNTIME_MINOR_START && !down.contains(m) && !up.contains(m) {
        r == desired
    } else {
        match r {
            Some(m) => 0x1000 <= m <= 0xFFFE && !down.contains(m) && !up.contains(m) && forall|x: u16|
                0x1000 <= x < m ==> #[trigger] down.contains(x) || up.contains(x),
            None => forall|x: u16| 0x1000 <= x <= 0xFFFE ==> #[trigger] down.contains(x) || up.contains(x),
        }
    }
}

/// Picks the minor of an overlay (see [`overlay_minor_choice`]).
pub fn choose_overlay_minor(desired: Option<u16>, used_down: &HashSet<u16>, used_up: &HashSet<u16>) -> (r: Option<u16>)
    ensures
        overlay_minor_choice(r, desired, used_down@, used_up@),
{
    if let Some(m) = desired {
        if m as u32 >= ACTIVE_RUNTIME_MINOR_START && !used_down.contains(&m) && !used_up.contains(&m) {
            return desired;
        }
    }
    find_free_dynamic_circuit_minor(used_down, used_up)
}

/// `Some(name)` unless the name is blank.
pub open spec fn unless_blank(s: String) -> Option<String> {
    if blank(s@) {
        None
    } else {
        Some(s)
    }
}

fn unless_blank_exec(s: &String) -> (r: Option<String>)
    ensures
        r == unless_blank(*s),
{
    if is_blank(s.as_str()) {
        None
    } else {
        Some(s.clone())
    }
}

/// The circuit an overlay adds under a site's classes with the given minor;
/// `ip_addresses` is its network list (see [`ip_list_from_shaped_device`]).
pub open spec fn overlay_circuit_is(
    c: BakeryCommands,
    d: DynamicShapedDevice,
    hash: i64,
    down_parent: TcHandle,
    up_parent: TcHandle,
    class_minor: u16,
) -> bool {
    c matches BakeryCommands::AddCircuit {
        circuit_hash,
        circuit_name,
        site_name,
        parent_class_id,
        up_parent_class_id,
        class_minor: minor,
        download_bandwidth_min,
        upload_bandwidth_min,
        download_bandwidth_max,
        upload_bandwidth_max,
        class_major,
        up_class_major,
        down_qdisc_handle,
        up_qdisc_handle,
        ip_addresses,
        sqm_override,
    } && {
        &&& circuit_hash == hash
        &&& circuit_name == unless_blank(d.circuit_name)
        &&& site_name == unless_blank(d.parent_node)
        &&& parent_class_id == down_parent
        &&& up_parent_class_id == up_parent
        &&& minor == class_minor
        &&& download_bandwidth_min == d.download_min_mbps
        &&& upload_bandwidth_min == d.upload_min_mbps
        &&& download_bandwidth_max == d.download_max_mbps
        &&& upload_bandwidth_max == d.upload_max_mbps
        &&& class_major == down_parent.major()
        &&& up_class_major == up_parent.major()
        &&& down_qdisc_handle is None
        &&& up_qdisc_handle is None
        &&& exists|s: Seq<Seq<char>>|
            keys_sorted(s) && s.to_set() == device_networks(d).to_set() && ip_addresses@ == join_seqs(s, ","@)
        &&& sqm_override == d.sqm_override
    }
}

/// Builds the circuit of an overlay (see [`overlay_circuit_is`]).
pub fn overlay_circuit(
    device: &DynamicShapedDevice,
    circuit_hash: i64,
    down_parent: TcHandle,
    up_parent: TcHandle,
    class_minor: u16,
) -> (r: BakeryCommands)
    ensures
        overlay_circuit_is(r, *device, circuit_hash, down_parent, up_parent, class_minor),
{
    let (down_major, _) = down_parent.get_major_minor();
    let (up_major, _) = up_parent.get_major_minor();
    BakeryCommands::AddCircuit {
        circuit_hash,
        circuit_name: unless_blank_exec(&device.circuit_name),
        site_name: unless_blank_exec(&device.parent_node),
        parent_class_id: down_parent,
        up_parent_class_id: up_parent,
        class_minor,
        download_bandwidth_min: device.download_min_mbps,
        upload_bandwidth_min: device.upload_min_mbps,
        download_bandwidth_max: device.download_max_mbps,
        upload_bandwidth_max: device.upload_max_mbps,
        class_major: down_major,
        up_class_major: up_major,
        down_qdisc_handle: None,
        up_qdisc_handle: None,
        ip_addresses: ip_list_from_shaped_device(device),
        sqm_override: clone_exact(&device.sqm_override),
    }
}

/// The number of mapped circuits (those with an IP address).
pub fn count_mapped_circuits(circuits: &HashMap<i64, BakeryCommands>) -> (r: usize)
    ensures
        r == existing_mapped(circuits@).len(),
{
    let ghost cm = circuits@;
    let ghost pred = |h: i64| mapped_hash_of(cm[h]) is Some;
    let keys = map_keys(circuits);
    proof {
        lemma_filter_prefix_ends(keys@, pred);
    }
    let mut count: usize = 0;
    let mut i: usize = 0;
    while i < keys.len()
        invariant
            cm == circuits@,
            i <= keys@.len(),
            keys@.no_duplicates(),
            keys@.to_set() == cm.dom(),
            pred == (|h: i64| mapped_hash_of(cm[h]) is Some),
            count == keys@.take(i as int).to_set().filter(pred).len(),
            count <= i,
        decreases keys@.len() - i,
    {
        let k = keys[i];
        proof {
            lemma_filter_prefix_step(keys@, i as int, pred);
            assert(keys@.to_set().contains(k)) by {
                assert(keys@.contains(k));
            }
        }
        match circuits.get(&k) {
            Some(c) => {
                if is_mapped_add_circuit(c) {
                    count = count + 1;
                }
            },
            None => {},
        }
        i = i + 1;
    }
    proof {
        assert(keys@.take(keys@.len() as int) =~= keys@);
        assert(keys@.to_set().filter(pred) =~= existing_mapped(cm));
    }
    count
}

/// What to do after a dynamic circuit was upserted.
#[derive(Debug)]
pub enum DynamicUpsertPlan {
    /// The overlay is recorded; the next commit (or nothing) applies it.
    Recorded,
    /// Add this circuit to the live tree now.
    Add(BakeryCommands),
    /// Refused: the mapped-circuit limit is reached.
    LimitReached(MappedLimitStats),
}

/// The minors taken under a class major, as a set.
pub open spec fn taken_set(
    sites: Map<i64, BakeryCommands>,
    circuits: Map<i64, BakeryCommands>,
    migrations: Map<i64, Migration>,
    major: u16,
    uplink: bool,
) -> Set<u16> {
    Set::new(|m: u16| minor_taken(sites, circuits, migrations, major, uplink, m))
}

/// `parent node '<p>'<rest>`
pub open spec fn parent_node_message(parent: Seq<char>, rest: Seq<char>) -> Seq<char> {
    "parent node '"@ + parent + "'"@ + rest
}

/// The minor an overlay already had, if any.
pub open spec fn kept_minor(o: Map<i64, DynamicCircuitOverlayEntry>, h: i64) -> Option<u16> {
    if o.contains_key(h) {
        o[h].class_minor
    } else {
        None
    }
}

/// What upserting a dynamic circuit does (see [`plan_dynamic_circuit_upsert`]).
pub open spec fn upsert_outcome(
    device: DynamicShapedDevice,
    o0: Map<i64, DynamicCircuitOverlayEntry>,
    o1: Map<i64, DynamicCircuitOverlayEntry>,
    deferred: bool,
    sites: Map<i64, BakeryCommands>,
    circuits: Map<i64, BakeryCommands>,
    migrations: Map<i64, Migration>,
    limit: Option<usize>,
    r: Result<DynamicUpsertPlan, String>,
) -> bool {
    let d = rehashed(device);
    let h = d.circuit_hash;
    let kept = kept_minor(o0, h);
    let recorded = o0.insert(h, DynamicCircuitOverlayEntry { shaped_device: d, class_minor: kept });
    if blank(device.circuit_id@) {
        o1 == o0 && (r matches Err(e) && e@ == "dynamic circuit requires circuit_id"@)
    } else if blank(device.device_id@) {
        o1 == o0 && (r matches Err(e) && e@ == "dynamic circuit requires device_id"@)
    } else if blank(device.parent_node@) {
        o1 == o0 && (r matches Err(e) && e@ == "dynamic circuit requires parent_node"@)
    } else if deferred || circuits.contains_key(h) {
        o1 == recorded && (r matches Ok(DynamicUpsertPlan::Recorded))
    } else if !sites.contains_key(d.parent_hash) {
        o1 == recorded && (r matches Err(e) && e@ == parent_node_message(
            d.parent_node@,
            " is not present in current bakery site state"@,
        ))
    } else if site_handles_of(sites[d.parent_hash]) is None {
        o1 == recorded && (r matches Err(e) && e@ == parent_node_message(
            d.parent_node@,
            " did not resolve to a valid site class"@,
        ))
    } else {
        let (dp, up) = site_handles_of(sites[d.parent_hash])->0;
        exists|minor: Option<u16>|
            #[trigger] overlay_minor_choice(
                minor,
                kept,
                taken_set(sites, circuits, migrations, dp.major(), false),
                taken_set(sites, circuits, migrations, up.major(), true),
            ) && match minor {
                None => o1 == recorded && (r matches Err(e) && e@
                    == "unable to allocate free class_minor for dynamic circuit"@),
                Some(m) => {
                    &&& o1 == o0.insert(h, DynamicCircuitOverlayEntry { shaped_device: d, class_minor: Some(m) })
                    &&& exists|c: BakeryCommands|
                        #[trigger] overlay_circuit_is(c, d, h, dp, up, m) && if mapped_hash_of(c) is Some
                            && (limit matches Some(l) && existing_mapped(circuits).len() >= l) {
                            r == Ok::<DynamicUpsertPlan, String>(
                                DynamicUpsertPlan::LimitReached(
                                    MappedLimitStats {
                                        enforced_limit: limit,
                                        requested_mapped: 1,
                                        allowed_mapped: 0,
                                        dropped_mapped: 1,
                                    },
                                ),
                            )
                        } else {
                            r == Ok::<DynamicUpsertPlan, String>(DynamicUpsertPlan::Add(c))
                        }
                },
            }
    }
}

/// Upserts a dynamic circuit: validates the device, records it as an
/// overlay (keeping the minor it had), and unless the change is `deferred`
/// (a batch is being assembled, queues only observed, no shaping tree yet)
/// or the circuit already exists, resolves its parent site, allocates its
/// minor and returns the circuit to add, or the refusal when the
/// mapped-circuit limit is reached (see [`upsert_outcome`]).
pub fn plan_dynamic_circuit_upsert(
    shaped_device: DynamicShapedDevice,
    overlays: &mut HashMap<i64, DynamicCircuitOverlayEntry>,
    deferred: bool,
    sites: &HashMap<i64, BakeryCommands>,
    circuits: &HashMap<i64, BakeryCommands>,
    migrations: &HashMap<i64, Migration>,
    mapped_limit: &ResolvedMappedLimit,
) -> (r: Result<DynamicUpsertPlan, String>)
    ensures
        upsert_outcome(
            shaped_device,
            old(overlays)@,
            final(overlays)@,
            deferred,
            sites@,
            circuits@,
            migrations@,
            mapped_limit.effective_limit,
            r,
        ),
{
    proof {
        reveal_strlit("dynamic circuit requires circuit_id");
        reveal_strlit("dynamic circuit requires device_id");
        reveal_strlit("dynamic circuit requires parent_node");
    }
    if is_blank(shaped_device.circuit_id.as_str()) {
        return Err(owned("dynamic circuit requires circuit_id"));
    }
    if is_blank(shaped_device.device_id.as_str()) {
        return Err(owned("dynamic circuit requires device_id"));
    }
    if is_blank(shaped_device.parent_node.as_str()) {
        return Err(owned("dynamic circuit requires parent_node"));
    }
    let ghost o0 = overlays@;
    let mut device = shaped_device;
    recompute_shaped_hashes(&mut device);
    let circuit_hash = device.circuit_hash;
    let parent_hash = device.parent_hash;
    let kept = match overlays.get(&circuit_hash) {
        Some(e) => e.class_minor,
        None => None,
    };
    assert(kept == kept_minor(o0, circuit_hash));
    let site = sites.get(&parent_hash);
    let handles = match site {
        Some(cmd) => site_class_handles(cmd),
        None => None,
    };
    let mut parent_text = owned("parent node '");
    append_str(&mut parent_text, device.parent_node.as_str());
    append_str(&mut parent_text, "'");
    if deferred || circuits.contains_key(&circuit_hash) {
        overlays.insert(circuit_hash, DynamicCircuitOverlayEntry { shaped_device: device, class_minor: kept });
        return Ok(DynamicUpsertPlan::Recorded);
    }
    let (down_parent, up_parent) = match handles {
        Some(h) => h,
        None => {
            let missing = site.is_none();
            overlays.insert(circuit_hash, DynamicCircuitOverlayEntry { shaped_device: device, class_minor: kept });
            if missing {
                append_str(&mut parent_text, " is not present in current bakery site state");
            } else {
                append_str(&mut parent_text, " did not resolve to a valid site class");
            }
            return Err(parent_text);
        },
    };
    let (down_major, _) = down_parent.get_major_minor();
    let (up_major, _) = up_parent.get_major_minor();
    let (used_down, used_up) = used_minors_for_majors(sites, circuits, migrations, down_major, up_major);
    proof {
        assert(used_down@ =~= taken_set(sites@, circuits@, migrations@, down_major, false));
        assert(used_up@ =~= taken_set(sites@, circuits@, migrations@, up_major, true));
    }
    let minor = choose_overlay_minor(kept, &used_down, &used_up);
    assert(overlay_minor_choice(
        minor,
        kept,
        taken_set(sites@, circuits@, migrations@, down_parent.major(), false),
        taken_set(sites@, circuits@, migrations@, up_parent.major(), true),
    ));
    let class_minor = match minor {
        Some(m) => m,
        None => {
            overlays.insert(circuit_hash, DynamicCircuitOverlayEntry { shaped_device: device, class_minor: kept });
            proof {
                reveal_strlit("unable to allocate free class_minor for dynamic circuit");
            }
            return Err(owned("unable to allocate free class_minor for dynamic circuit"));
        },
    };
    let candidate = overlay_circuit(&device, circuit_hash, down_parent, up_parent, class_minor);
    assert(overlay_circuit_is(candidate, device, circuit_hash, down_parent, up_parent, class_minor));
    overlays.insert(circuit_hash, DynamicCircuitOverlayEntry { shaped_device: device, class_minor: Some(class_minor) });
    if is_mapped_add_circuit(&candidate) {
        if let Some(limit) = mapped_limit.effective_limit {
            if count_mapped_circuits(circuits) >= limit {
                return Ok(
                    DynamicUpsertPlan::LimitReached(
                        MappedLimitStats {
                            enforced_limit: mapped_limit.effective_limit,
                            requested_mapped: 1,
                            allowed_mapped: 0,
                            dropped_mapped: 1,
                        },
                    ),
                );
            }
        }
    }
    Ok(DynamicUpsertPlan::Add(candidate))
}

/// An overlay whose circuit id matches `id` once both are normalized.
pub open spec fn overlay_matches(o: Map<i64, DynamicCircuitOverlayEntry>, k: i64, id: Seq<char>) -> bool {
    o.contains_key(k) && lower_seq(trim_seq(o[k].shaped_device.circuit_id@)) == lower_seq(trim_seq(id))
}

/// `key` is the overlay a removal of `id` names (see [`find_overlay_key`]).
pub open spec fn removal_key(o: Map<i64, DynamicCircuitOverlayEntry>, id: Seq<char>, key: Option<i64>) -> bool {
    match key {
        Some(k) => overlay_matches(o, k, id) || (!(exists|j: i64| #[trigger] overlay_matches(o, j, id)) && k
            == runtime_hash(id) && o.contains_key(k)),
        None => !(exists|j: i64| #[trigger] overlay_matches(o, j, id)) && !o.contains_key(runtime_hash(id)),
    }
}

/// Finds the overlay a removal names: one whose circuit id matches once
/// normalized, else the one keyed by the id's hash, if any.
fn find_overlay_key(circuit_id: &str, overlays: &HashMap<i64, DynamicCircuitOverlayEntry>) -> (r: Option<i64>)
    ensures
        removal_key(overlays@, circuit_id@, r),
{
    let normalized = chars_of(normalize_circuit_id_key(circuit_id).as_str());
    let keys = map_keys(overlays);
    let mut i: usize = 0;
    while i < keys.len()
        invariant
            i <= keys@.len(),
            keys@.to_set() == overlays@.dom(),
            normalized@ == lower_seq(trim_seq(circuit_id@)),
            forall|j: int| 0 <= j < i ==> !overlay_matches(overlays@, #[trigger] keys@[j], circuit_id@),
        decreases keys@.len() - i,
    {
        let k = keys[i];
        assert(keys@.to_set().contains(k)) by {
            assert(keys@.contains(k));
        }
        match overlays.get(&k) {
            Some(e) => {
                let candidate = chars_of(normalize_circuit_id_key(e.shaped_device.circuit_id.as_str()).as_str());
                if vec_eq(&candidate, &normalized) {
                    return Some(k);
                }
            },
            None => {},
        }
        i = i + 1;
    }
    proof {
        assert forall|j: i64| !#[trigger] overlay_matches(overlays@, j, circuit_id@) by {
            if overlay_matches(overlays@, j, circuit_id@) {
                assert(keys@.to_set().contains(j));
                let t = choose|t: int| 0 <= t < keys@.len() && keys@[t] == j;
                assert(!overlay_matches(overlays@, keys@[t], circuit_id@));
            }
        }
    }
    let computed = runtime_hash_to_i64(circuit_id);
    if overlays.contains_key(&computed) {
        Some(computed)
    } else {
        None
    }
}

/// The deletions that take a removed dynamic circuit out of the live tree:
/// all of it when queues are built eagerly; under lazy queues only what was
/// activated (its SQM only under lazy HTB, everything under fully lazy).
pub open spec fn removal_prune(circuit: BakeryCommands, config: BakeryConfig, activated: bool) -> Option<
    Seq<Seq<Seq<char>>>,
> {
    match config.lazy_queues {
        None => to_prune_spec(circuit, config, true),
        Some(LazyQueueMode::No) => to_prune_spec(circuit, config, true),
        Some(LazyQueueMode::Htb) => if activated {
            to_prune_spec(circuit, config, false)
        } else {
            None
        },
        Some(LazyQueueMode::Full) => if activated {
            to_prune_spec(circuit, config, true)
        } else {
            None
        },
    }
}

/// A dynamic circuit taken out of the tree: its hash and the deletions to run.
#[derive(Debug)]
pub struct DynamicRemoval {
    /// The removed circuit.
    pub circuit_hash: i64,
    /// Its deletions, if any apply.
    pub prune: Option<Vec<Vec<String>>>,
}

/// Removes a dynamic circuit by id: drops its overlay (see
/// [`find_overlay_key`]) and, unless a batch is being assembled, takes the
/// circuit (the overlay's, else the one keyed by the id's hash) out of the
/// effective circuits and the live set, returning the deletions to run
/// (see [`removal_prune`]). `None` when no circuit was taken out.
pub fn plan_dynamic_circuit_removal(
    circuit_id: &str,
    overlays: &mut HashMap<i64, DynamicCircuitOverlayEntry>,
    batch_in_progress: bool,
    config: &BakeryConfig,
    circuits: &mut HashMap<i64, BakeryCommands>,
    live_circuits: &mut HashMap<i64, u64>,
) -> (r: Option<DynamicRemoval>)
    ensures
        exists|key: Option<i64>|
            {
                &&& #[trigger] removal_key(old(overlays)@, circuit_id@, key)
                &&& final(overlays)@ == match key {
                    Some(k) => old(overlays)@.remove(k),
                    None => old(overlays)@,
                }
                &&& {
                    let h = match key {
                        Some(k) => k,
                        None => runtime_hash(circuit_id@),
                    };
                    if batch_in_progress || !old(circuits)@.contains_key(h) {
                        &&& r is None
                        &&& final(circuits)@ == old(circuits)@
                        &&& final(live_circuits)@ == old(live_circuits)@
                    } else {
                        &&& r matches Some(rm) && rm.circuit_hash == h && opt_cmds_view(rm.prune) == removal_prune(
                            old(circuits)@[h],
                            *config,
                            old(live_circuits)@.contains_key(h),
                        )
                        &&& final(circuits)@ == old(circuits)@.remove(h)
                        &&& final(live_circuits)@ == old(live_circuits)@.remove(h)
                    }
                }
            },
{
    let key = find_overlay_key(circuit_id, overlays);
    let ghost o0 = overlays@;
    if let Some(k) = key {
        overlays.remove(&k);
    }
    assert(overlays@ == match key {
        Some(k) => o0.remove(k),
        None => o0,
    });
    if batch_in_progress {
        return None;
    }
    let circuit_hash = match key {
        Some(k) => k,
        None => runtime_hash_to_i64(circuit_id),
    };
    let circuit = match circuits.remove(&circuit_hash) {
        Some(c) => c,
        None => return None,
    };
    let was_activated = live_circuits.contains_key(&circuit_hash);
    let prune = match config.lazy_queues {
        None => circuit.to_prune(config, true),
        Some(LazyQueueMode::No) => circuit.to_prune(config, true),
        Some(LazyQueueMode::Htb) => if was_activated {
            circuit.to_prune(config, false)
        } else {
            None
        },
        Some(LazyQueueMode::Full) => if was_activated {
            circuit.to_prune(config, true)
        } else {
            None
        },
    };
    live_circuits.remove(&circuit_hash);
    Some(DynamicRemoval { circuit_hash, prune })
}

/// The sites of a batch by hash, a later command replacing an earlier one.
pub open spec fn planned_sites_of(batch: Seq<BakeryCommands>) -> Map<i64, BakeryCommands>
    decreases batch.len(),
{
    if batch.len() == 0 {
        Map::empty()
    } else {
        let m = planned_sites_of(batch.drop_last());
        match batch.last() {
            BakeryCommands::AddSite { site_hash, .. } => m.insert(site_hash, batch.last()),
            _ => m,
        }
    }
}

/// The circuits of a batch by hash, a later command replacing an earlier one.
pub open spec fn planned_circuits_of(batch: Seq<BakeryCommands>) -> Map<i64, BakeryCommands>
    decreases batch.len(),
{
    if batch.len() == 0 {
        Map::empty()
    } else {
        let m = planned_circuits_of(batch.drop_last());
        match batch.last() {
            BakeryCommands::AddCircuit { circuit_hash, .. } => m.insert(circuit_hash, batch.last()),
            _ => m,
        }
    }
}

/// The batch without its circuit commands for hash `h`, in order.
pub open spec fn without_circuit(batch: Seq<BakeryCommands>, h: i64) -> Seq<BakeryCommands>
    decreases batch.len(),
{
    if batch.len() == 0 {
        batch
    } else {
        let rest = without_circuit(batch.drop_last(), h);
        if batch.last() matches BakeryCommands::AddCircuit { circuit_hash, .. } && circuit_hash == h {
            rest
        } else {
            rest.push(batch.last())
        }
    }
}

/// Minors already given to overlays under a pair of majors.
pub open spec fn allocated_minors(a: Seq<(u16, u16, u16)>, down_major: u16, up_major: u16) -> Set<u16> {
    Set::new(|m: u16| exists|i: int| 0 <= i < a.len() && a[i] == (down_major, up_major, m))
}

/// A run over the overlays: the batch, the overlays, and the minors given
/// so far (down major, up major, minor).
pub type OverlayRun = (Seq<BakeryCommands>, Map<i64, DynamicCircuitOverlayEntry>, Seq<(u16, u16, u16)>);

/// One overlay (`h`) applied to the batch: a valid overlay whose parent is a
/// planned site gets a minor free in both directions under that site's
/// majors and replaces any circuit of its hash in the batch. Its hashes are
/// recomputed on the way; a blank one is left alone.
pub open spec fn overlay_step(
    s0: OverlayRun,
    s1: OverlayRun,
    h: i64,
    ps: Map<i64, BakeryCommands>,
    pc: Map<i64, BakeryCommands>,
    mig: Map<i64, Migration>,
) -> bool {
    let o = s0.1;
    if !o.contains_key(h) || blank(o[h].shaped_device.circuit_id@) || blank(o[h].shaped_device.device_id@) {
        s1 == s0
    } else {
        let d = rehashed(o[h].shaped_device);
        let desired = o[h].class_minor;
        let rehashed_overlays = o.insert(h, DynamicCircuitOverlayEntry { shaped_device: d, class_minor: desired });
        if !ps.contains_key(d.parent_hash) || site_handles_of(ps[d.parent_hash]) is None {
            s1 == (s0.0, rehashed_overlays, s0.2)
        } else {
            let hs = site_handles_of(ps[d.parent_hash])->0;
            let dm = hs.0.major();
            let um = hs.1.major();
            let ud = taken_set(ps, pc, mig, dm, false).union(allocated_minors(s0.2, dm, um));
            let uu = taken_set(ps, pc, mig, um, true).union(allocated_minors(s0.2, dm, um));
            exists|m: Option<u16>|
                #[trigger] overlay_minor_choice(m, desired, ud, uu) && match m {
                    None => s1 == (s0.0, rehashed_overlays, s0.2),
                    Some(mm) => {
                        &&& s1.1 == o.insert(h, DynamicCircuitOverlayEntry { shaped_device: d, class_minor: Some(mm) })
                        &&& s1.2 == s0.2.push((dm, um, mm))
                        &&& exists|c: BakeryCommands|
                            #[trigger] overlay_circuit_is(c, d, h, hs.0, hs.1, mm) && s1.0 == without_circuit(
                                s0.0,
                                h,
                            ).push(c)
                    },
                }
        }
    }
}

/// The overlays of `keys`, in order, applied to the run `s0` give `s1`.
pub open spec fn overlays_applied(
    s0: OverlayRun,
    keys: Seq<i64>,
    s1: OverlayRun,
    ps: Map<i64, BakeryCommands>,
    pc: Map<i64, BakeryCommands>,
    mig: Map<i64, Migration>,
) -> bool
    decreases keys.len(),
{
    if keys.len() == 0 {
        s1 == s0
    } else {
        exists|mid: OverlayRun|
            overlays_applied(s0, keys.drop_last(), mid, ps, pc, mig) && #[trigger] overlay_step(
                mid,
                s1,
                keys.last(),
                ps,
                pc,
                mig,
            )
    }
}

/// One more overlay extends a run.
proof fn lemma_applied_push(
    s0: OverlayRun,
    keys: Seq<i64>,
    mid: OverlayRun,
    s1: OverlayRun,
    ps: Map<i64, BakeryCommands>,
    pc: Map<i64, BakeryCommands>,
    mig: Map<i64, Migration>,
)
    requires
        keys.len() > 0,
        overlays_applied(s0, keys.drop_last(), mid, ps, pc, mig),
        overlay_step(mid, s1, keys.last(), ps, pc, mig),
    ensures
        overlays_applied(s0, keys, s1, ps, pc, mig),
{
    assert(overlays_applied(s0, keys.drop_last(), mid, ps, pc, mig) && overlay_step(
        mid,
        s1,
        keys.last(),
        ps,
        pc,
        mig,
    ));
}

/// The planned sites of a batch.
fn planned_sites_map(batch: &Vec<BakeryCommands>) -> (r: HashMap<i64, BakeryCommands>)
    ensures
        r@ == planned_sites_of(batch@),
{
    let mut m: HashMap<i64, BakeryCommands> = HashMap::new();
    let mut i: usize = 0;
    while i < batch.len()
        invariant
            i <= batch@.len(),
            m@ == planned_sites_of(batch@.take(i as int)),
        decreases batch@.len() - i,
    {
        proof {
            assert(batch@.take(i + 1).drop_last() =~= batch@.take(i as int));
        }
        if let BakeryCommands::AddSite { site_hash, .. } = &batch[i] {
            m.insert(*site_hash, batch[i].duplicate());
        }
        i = i + 1;
    }
    assert(batch@.take(batch@.len() as int) =~= batch@);
    m
}

/// The planned circuits of a batch.
fn planned_circuits_map(batch: &Vec<BakeryCommands>) -> (r: HashMap<i64, BakeryCommands>)
    ensures
        r@ == planned_circuits_of(batch@),
{
    let mut m: HashMap<i64, BakeryCommands> = HashMap::new();
    let mut i: usize = 0;
    while i < batch.len()
        invariant
            i <= batch@.len(),
            m@ == planned_circuits_of(batch@.take(i as int)),
        decreases batch@.len() - i,
    {
        proof {
            assert(batch@.take(i + 1).drop_last() =~= batch@.take(i as int));
        }
        if let BakeryCommands::AddCircuit { circuit_hash, .. } = &batch[i] {
            m.insert(*circuit_hash, batch[i].duplicate());
        }
        i = i + 1;
    }
    assert(batch@.take(batch@.len() as int) =~= batch@);
    m
}

/// Drops the batch's circuit commands for hash `h`, keeping the order.
fn remove_circuit_from_batch(batch: &mut Vec<BakeryCommands>, h: i64)
    ensures
        final(batch)@ == without_circuit(old(batch)@, h),
{
    let ghost b0 = batch@;
    let ghost mut j: int = 0;
    let mut i: usize = 0;
    while i < batch.len()
        invariant
            0 <= j <= b0.len(),
            i == without_circuit(b0.take(j), h).len(),
            batch@ == without_circuit(b0.take(j), h) + b0.subrange(j, b0.len() as int),
        decreases b0.len() - j,
    {
        proof {
            assert(b0.take(j + 1).drop_last() =~= b0.take(j));
            assert(batch@[i as int] == b0[j]);
        }
        let drop = match &batch[i] {
            BakeryCommands::AddCircuit { circuit_hash, .. } => *circuit_hash == h,
            _ => false,
        };
        if drop {
            batch.remove(i);
            proof {
                assert(batch@ =~= without_circuit(b0.take(j + 1), h) + b0.subrange(j + 1, b0.len() as int));
            }
        } else {
            proof {
                assert(batch@ =~= without_circuit(b0.take(j + 1), h) + b0.subrange(j + 1, b0.len() as int));
            }
            i = i + 1;
        }
        proof {
            j = j + 1;
        }
    }
    proof {
        assert(j == b0.len()) by {
            if j < b0.len() {
                assert(batch@.len() > i);
            }
        }
        assert(b0.take(j) =~= b0);
        assert(batch@ =~= without_circuit(b0, h));
    }
}

/// Adds the minors already given under a pair of majors to both sets.
fn add_allocated(
    allocated: &Vec<(u16, u16, u16)>,
    down_major: u16,
    up_major: u16,
    used_down: &mut HashSet<u16>,
    used_up: &mut HashSet<u16>,
)
    ensures
        final(used_down)@ == old(used_down)@.union(allocated_minors(allocated@, down_major, up_major)),
        final(used_up)@ == old(used_up)@.union(allocated_minors(allocated@, down_major, up_major)),
{
    let ghost d0 = used_down@;
    let ghost u0 = used_up@;
    let mut i: usize = 0;
    while i < allocated.len()
        invariant
            i <= allocated@.len(),
            used_down@ == d0.union(allocated_minors(allocated@.take(i as int), down_major, up_major)),
            used_up@ == u0.union(allocated_minors(allocated@.take(i as int), down_major, up_major)),
        decreases allocated@.len() - i,
    {
        let (dm, um, m) = allocated[i];
        if dm == down_major && um == up_major {
            used_down.insert(m);
            used_up.insert(m);
        }
        proof {
            let a = allocated@.take(i as int);
            let b = allocated@.take(i + 1);
            assert forall|x: u16| allocated_minors(b, down_major, up_major).contains(x) <==> (allocated_minors(
                a,
                down_major,
                up_major,
            ).contains(x) || (dm == down_major && um == up_major && x == m)) by {
                if allocated_minors(b, down_major, up_major).contains(x) {
                    let k = choose|k: int| 0 <= k < b.len() && b[k] == (down_major, up_major, x);
                    if k < i {
                        assert(a[k] == b[k]);
                    }
                }
                if allocated_minors(a, down_major, up_major).contains(x) {
                    let k = choose|k: int| 0 <= k < a.len() && a[k] == (down_major, up_major, x);
                    assert(b[k] == a[k]);
                }
                if dm == down_major && um == up_major && x == m {
                    assert(b[i as int] == (down_major, up_major, x));
                }
            }
            assert(used_down@ =~= d0.union(allocated_minors(b, down_major, up_major)));
            assert(used_up@ =~= u0.union(allocated_minors(b, down_major, up_major)));
        }
        i = i + 1;
    }
    assert(allocated@.take(allocated@.len() as int) =~= allocated@);
}

/// Adds the dynamic-circuit overlays to a batch being committed, in
/// increasing circuit-hash order (see [`overlay_step`]): each valid overlay
/// whose parent node is a site of the batch gets its circuit, with a
/// runtime minor free under that site's majors, in place of any circuit of
/// the same hash.
pub fn append_dynamic_circuit_overlays_to_batch(
    batch: &mut Vec<BakeryCommands>,
    overlays: &mut HashMap<i64, DynamicCircuitOverlayEntry>,
    migrations: &HashMap<i64, Migration>,
)
    ensures
        exists|keys: Seq<i64>, allocated: Seq<(u16, u16, u16)>|
            sorted_listing(keys, old(overlays)@.dom()) && #[trigger] overlays_applied(
                (old(batch)@, old(overlays)@, Seq::empty()),
                keys,
                (final(batch)@, final(overlays)@, allocated),
                planned_sites_of(old(batch)@),
                planned_circuits_of(old(batch)@),
                migrations@,
            ),
{
    let ghost b0 = batch@;
    let ghost o0 = overlays@;
    let ghost start: OverlayRun = (b0, o0, Seq::empty());
    let planned_sites = planned_sites_map(batch);
    let planned_circuits = planned_circuits_map(batch);
    let ghost ps = planned_sites@;
    let ghost pc = planned_circuits@;
    let keys = sorted_keys(overlays);
    let mut allocated: Vec<(u16, u16, u16)> = Vec::new();
    assert(overlays_applied(start, keys@.take(0), (batch@, overlays@, allocated@), ps, pc, migrations@)) by {
        assert(allocated@ =~= Seq::<(u16, u16, u16)>::empty());
    }
    let mut i: usize = 0;
    while i < keys.len()
        invariant
            i <= keys@.len(),
            ps == planned_sites@,
            pc == planned_circuits@,
            overlays_applied(start, keys@.take(i as int), (batch@, overlays@, allocated@), ps, pc, migrations@),
        decreases keys@.len() - i,
    {
        let h = keys[i];
        let ghost mid: OverlayRun = (batch@, overlays@, allocated@);
        proof {
            assert(keys@.take(i + 1).drop_last() =~= keys@.take(i as int));
            assert(keys@.take(i + 1).last() == h);
        }
        match overlays.remove(&h) {
            None => {
                assert(overlays@ =~= mid.1);
                assert(overlay_step(mid, (batch@, overlays@, allocated@), h, ps, pc, migrations@));
            },
            Some(entry) => {
                if is_blank(entry.shaped_device.circuit_id.as_str()) || is_blank(entry.shaped_device.device_id.as_str()) {
                    overlays.insert(h, entry);
                    proof {
                        assert(overlays@ =~= mid.1);
                        assert(overlay_step(mid, (batch@, overlays@, allocated@), h, ps, pc, migrations@));
                    }
                } else {
                    let DynamicCircuitOverlayEntry { shaped_device, class_minor: desired } = entry;
                    let mut device = shaped_device;
                    recompute_shaped_hashes(&mut device);
                    let handles = match planned_sites.get(&device.parent_hash) {
                        Some(site) => site_class_handles(site),
                        None => None,
                    };
                    match handles {
                        None => {
                            overlays.insert(h, DynamicCircuitOverlayEntry { shaped_device: device, class_minor: desired });
                            proof {
                                assert(overlays@ =~= mid.1.insert(
                                    h,
                                    DynamicCircuitOverlayEntry { shaped_device: rehashed(mid.1[h].shaped_device), class_minor: desired },
                                ));
                                assert(device == rehashed(mid.1[h].shaped_device));
                                assert(overlay_step(mid, (batch@, overlays@, allocated@), h, ps, pc, migrations@));
                            }
                        },
                        Some((down_parent, up_parent)) => {
                            let (down_major, _) = down_parent.get_major_minor();
                            let (up_major, _) = up_parent.get_major_minor();
                            let (mut used_down, mut used_up) = used_minors_for_majors(
                                &planned_sites,
                                &planned_circuits,
                                migrations,
                                down_major,
                                up_major,
                            );
                            add_allocated(&allocated, down_major, up_major, &mut used_down, &mut used_up);
                            proof {
                                assert(used_down@ =~= taken_set(ps, pc, migrations@, down_major, false).union(
                                    allocated_minors(allocated@, down_major, up_major),
                                ));
                                assert(used_up@ =~= taken_set(ps, pc, migrations@, up_major, true).union(
                                    allocated_minors(allocated@, down_major, up_major),
                                ));
                            }
                            let minor = choose_overlay_minor(desired, &used_down, &used_up);
                            assert(overlay_minor_choice(
                                minor,
                                desired,
                                taken_set(ps, pc, migrations@, down_parent.major(), false).union(
                                    allocated_minors(mid.2, down_parent.major(), up_parent.major()),
                                ),
                                taken_set(ps, pc, migrations@, up_parent.major(), true).union(
                                    allocated_minors(mid.2, down_parent.major(), up_parent.major()),
                                ),
                            ));
                            match minor {
                                None => {
                                    overlays.insert(h, DynamicCircuitOverlayEntry { shaped_device: device, class_minor: desired });
                                    proof {
                                        assert(overlays@ =~= mid.1.insert(
                                            h,
                                            DynamicCircuitOverlayEntry {
                                                shaped_device: rehashed(mid.1[h].shaped_device),
                                                class_minor: desired,
                                            },
                                        ));
                                        assert(device == rehashed(mid.1[h].shaped_device));
                                        let hs = site_handles_of(ps[device.parent_hash])->0;
                                        assert(hs.0 == down_parent && hs.1 == up_parent);
                                        assert(overlay_step(mid, (batch@, overlays@, allocated@), h, ps, pc, migrations@));
                                    }
                                },
                                Some(m) => {
                                    let circuit = overlay_circuit(&device, h, down_parent, up_parent, m);
                                    assert(overlay_circuit_is(circuit, device, h, down_parent, up_parent, m));
                                    allocated.push((down_major, up_major, m));
                                    overlays.insert(h, DynamicCircuitOverlayEntry { shaped_device: device, class_minor: Some(m) });
                                    remove_circuit_from_batch(batch, h);
                                    batch.push(circuit);
                                    proof {
                                        assert(overlays@ =~= mid.1.insert(
                                            h,
                                            DynamicCircuitOverlayEntry {
                                                shaped_device: rehashed(mid.1[h].shaped_device),
                                                class_minor: Some(m),
                                            },
                                        ));
                                        assert(batch@ == without_circuit(mid.0, h).push(circuit));
                                        assert(allocated@ == mid.2.push((down_major, up_major, m)));
                                        assert(device == rehashed(mid.1[h].shaped_device));
                                        let hs = site_handles_of(ps[device.parent_hash])->0;
                                        assert(hs.0 == down_parent && hs.1 == up_parent);
                                        assert(overlay_step(mid, (batch@, overlays@, allocated@), h, ps, pc, migrations@));
                                    }
                                },
                            }
                        },
                    }
                }
            },
        }
        proof {
            assert(overlay_step(mid, (batch@, overlays@, allocated@), h, ps, pc, migrations@));
            assert(overlays_applied(start, keys@.take(i as int), mid, ps, pc, migrations@));
            assert(overlays_applied(start, keys@.take(i + 1).drop_last(), mid, ps, pc, migrations@));
            assert(overlay_step(mid, (batch@, overlays@, allocated@), keys@.take(i + 1).last(), ps, pc, migrations@));
            lemma_applied_push(start, keys@.take(i + 1), mid, (batch@, overlays@, allocated@), ps, pc, migrations@);
        }
        i = i + 1;
    }
    proof {
        assert(keys@.take(keys@.len() as int) =~= keys@);
    }
}

} // verus!
