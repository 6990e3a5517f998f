//! Site-level diff between the current Bakery state and a new batch.
use vstd::prelude::*;
use std::collections::HashMap;
use crate::commands::BakeryCommands;
use crate::maps::map_keys;
use crate::summary::{format_i64_list, i64_list_seq, sorted_insert, sorted_listing, strictly_sorted};
use crate::tc_handle::{tc_seq, TcHandle};
use crate::text::{append_str, dec_int, dec_seq, dec_string, dec_string_i64, hex_seq, hex_string, owned};

verus! {

broadcast use vstd::std_specs::hash::group_hash_axioms;

/// Largest added/removed set for which the summary lists the hashes.
pub const SITE_DELTA_PREVIEW_THRESHOLD: usize = 8;

/// Structured metadata about a site-level structural diff that forced a full rebuild.
#[derive(Clone, Copy, Debug, PartialEq, Eq, Structural)]
pub struct StructuralSiteDiffDetails {
    /// Stable Bakery site hash for the structurally changed site.
    pub site_hash: i64,
}

/// Outcome of comparing the sites of a new batch with the current sites.
#[derive(Debug)]
pub enum SiteDiffResult {
    /// The site tree changed shape; a full rebuild is needed.
    RebuildRequired {
        /// Operator-facing reason.
        summary: String,
        /// The structurally changed site, when one was found.
        details: Option<StructuralSiteDiffDetails>,
    },
    /// Only rates changed; the updated site commands.
    SpeedChanges {
        /// One updated `AddSite` per site whose rates changed.
        changes: Vec<BakeryCommands>,
    },
    /// Nothing changed.
    NoChange,
}

/// Index of the last `AddSite` for each site hash in a batch.
pub open spec fn site_index_map(b: Seq<BakeryCommands>) -> Map<i64, int>
    decreases b.len(),
{
    if b.len() == 0 {
        Map::empty()
    } else {
        let prev = site_index_map(b.drop_last());
        match b.last() {
            BakeryCommands::AddSite { site_hash, .. } => prev.insert(site_hash, b.len() - 1),
            _ => prev,
        }
    }
}

/// The sites of a batch keyed by hash; a later `AddSite` for the same hash wins.
pub open spec fn batch_sites(b: Seq<BakeryCommands>) -> Map<i64, BakeryCommands> {
    let idx = site_index_map(b);
    Map::new(|k: i64| idx.contains_key(k), |k: i64| b[idx[k]])
}

/// Site hash of a site command.
pub open spec fn site_hash_of(c: BakeryCommands) -> Option<i64> {
    match c {
        BakeryCommands::AddSite { site_hash, .. } => Some(site_hash),
        _ => None,
    }
}

pub proof fn lemma_site_index_map(b: Seq<BakeryCommands>)
    ensures
        forall|k: i64| #[trigger] site_index_map(b).contains_key(k) ==> {
            let i = site_index_map(b)[k];
            &&& 0 <= i < b.len()
            &&& site_hash_of(b[i]) == Some(k)
        },
        forall|i: int| 0 <= i < b.len() && #[trigger] site_hash_of(b[i]) is Some ==> site_index_map(
            b,
        ).contains_key(site_hash_of(b[i]).unwrap()),
        site_index_map(b).dom().finite(),
    decreases b.len(),
{
    if b.len() > 0 {
        lemma_site_index_map(b.drop_last());
        assert forall|i: int| 0 <= i < b.len() && #[trigger] site_hash_of(b[i]) is Some implies site_index_map(
            b,
        ).contains_key(site_hash_of(b[i]).unwrap()) by {
            if i < b.len() - 1 {
                assert(b.drop_last()[i] == b[i]);
            }
        }
    }
}

/// The two site commands place the site differently in the class tree.
pub open spec fn structurally_different(a: BakeryCommands, b: BakeryCommands) -> bool {
    match (a, b) {
        (
            BakeryCommands::AddSite { site_hash, parent_class_id, up_parent_class_id, class_minor, .. },
            BakeryCommands::AddSite {
                site_hash: b_site_hash,
                parent_class_id: b_parent,
                up_parent_class_id: b_up_parent,
                class_minor: b_minor,
                ..
            },
        ) => site_hash == b_site_hash && (parent_class_id != b_parent || up_parent_class_id
            != b_up_parent || class_minor != b_minor),
        _ => false,
    }
}

/// The old site with the new site's rates, when any rate differs.
pub open spec fn site_speed_change(a: BakeryCommands, b: BakeryCommands) -> Option<BakeryCommands> {
    match (a, b) {
        (
            BakeryCommands::AddSite {
                site_hash,
                parent_class_id,
                up_parent_class_id,
                class_minor,
                download_bandwidth_min,
                upload_bandwidth_min,
                download_bandwidth_max,
                upload_bandwidth_max,
            },
            BakeryCommands::AddSite {
                site_hash: b_site_hash,
                download_bandwidth_min: b_dmin,
                upload_bandwidth_min: b_umin,
                download_bandwidth_max: b_dmax,
                upload_bandwidth_max: b_umax,
                ..
            },
        ) => if site_hash == b_site_hash && (download_bandwidth_min != b_dmin
            || upload_bandwidth_min != b_umin || download_bandwidth_max != b_dmax
            || upload_bandwidth_max != b_umax) {
            Some(
                BakeryCommands::AddSite {
                    site_hash,
                    parent_class_id,
                    up_parent_class_id,
                    class_minor,
                    download_bandwidth_min: b_dmin,
                    upload_bandwidth_min: b_umin,
                    download_bandwidth_max: b_dmax,
                    upload_bandwidth_max: b_umax,
                },
            )
        } else {
            None
        },
        _ => None,
    }
}

/// ` <label>=[..]` when the changed set is small enough to list.
pub open spec fn site_hash_preview(label: Seq<char>, hashes: Seq<i64>, total_changed: nat) -> Option<
    Seq<char>,
> {
    if hashes.len() == 0 || hashes.len() > SITE_DELTA_PREVIEW_THRESHOLD || total_changed
        > SITE_DELTA_PREVIEW_THRESHOLD {
        None
    } else {
        Some(" "@ + label + "="@ + i64_list_seq(hashes))
    }
}

/// Preview text or nothing.
pub open spec fn preview_text(p: Option<Seq<char>>) -> Seq<char> {
    match p {
        Some(t) => t,
        None => Seq::empty(),
    }
}

/// The summary of a site-set change.
pub open spec fn site_delta_summary(
    reason: Seq<char>,
    missing_old_site_hash: Option<i64>,
    old_count: nat,
    new_count: nat,
    added: Seq<i64>,
    removed: Seq<i64>,
) -> Seq<char> {
    let total = added.len() + removed.len();
    "Bakery full reload triggered by site diff: "@ + reason + " old_count="@ + dec_seq(old_count)
        + " new_count="@ + dec_seq(new_count) + " added_count="@ + dec_seq(added.len())
        + " removed_count="@ + dec_seq(removed.len()) + (match missing_old_site_hash {
        Some(h) => " missing_old_site_hash="@ + dec_int(h as int),
        None => Seq::empty(),
    }) + preview_text(site_hash_preview("added_preview"@, added, total)) + preview_text(
        site_hash_preview("removed_preview"@, removed, total),
    )
}

/// Parent and up-parent handles and class minor of a site command.
pub open spec fn site_placement(c: BakeryCommands) -> (TcHandle, TcHandle, u16) {
    match c {
        BakeryCommands::AddSite { parent_class_id, up_parent_class_id, class_minor, .. } => (
            parent_class_id,
            up_parent_class_id,
            class_minor,
        ),
        _ => (TcHandle(0), TcHandle(0), 0),
    }
}

/// The summary of a structural change of one site.
pub open spec fn structural_summary(site_hash: i64, old: BakeryCommands, new: BakeryCommands) -> Seq<
    char,
> {
    let (op, ou, om) = site_placement(old);
    let (np, nu, nm) = site_placement(new);
    "Bakery full reload triggered by site diff: site_hash="@ + dec_int(site_hash as int)
        + " parent="@ + tc_seq(op.0) + "→"@ + tc_seq(np.0) + " up_parent="@ + tc_seq(ou.0) + "→"@
        + tc_seq(nu.0) + " minor=0x"@ + hex_seq(om as nat) + "→0x"@ + hex_seq(nm as nat)
}

/// A site of the old state forces a rebuild: it is gone or moved.
pub open spec fn site_blocks(
    old: Map<i64, BakeryCommands>,
    new: Map<i64, BakeryCommands>,
    k: i64,
) -> bool {
    old.contains_key(k) && (!new.contains_key(k) || structurally_different(old[k], new[k]))
}

/// `summary` and `details` describe the rebuild caused by site `k`.
pub open spec fn blocking_report(
    old: Map<i64, BakeryCommands>,
    new: Map<i64, BakeryCommands>,
    k: i64,
    summary: Seq<char>,
    details: Option<StructuralSiteDiffDetails>,
) -> bool {
    if new.contains_key(k) {
        &&& details == Some(StructuralSiteDiffDetails { site_hash: k })
        &&& summary == structural_summary(k, old[k], new[k])
    } else {
        &&& details is None
        &&& exists|added: Seq<i64>, removed: Seq<i64>|
            {
                &&& sorted_listing(added, new.dom().difference(old.dom()))
                &&& sorted_listing(removed, old.dom().difference(new.dom()))
                &&& summary == site_delta_summary(
                    "site_set_changed"@,
                    Some(k),
                    old.len(),
                    new.len(),
                    added,
                    removed,
                )
            }
    }
}

/// A rate-only change of site `k` yields `c`.
pub open spec fn speed_change_for(
    old: Map<i64, BakeryCommands>,
    new: Map<i64, BakeryCommands>,
    k: i64,
    c: BakeryCommands,
) -> bool {
    old.contains_key(k) && new.contains_key(k) && site_speed_change(old[k], new[k]) == Some(c)
}

/// The result of [`diff_sites`] for the given old and new site maps.
pub open spec fn site_diff_matches(
    old: Map<i64, BakeryCommands>,
    new: Map<i64, BakeryCommands>,
    r: SiteDiffResult,
) -> bool {
    if old.len() != new.len() {
        r matches SiteDiffResult::RebuildRequired { summary, details } && details is None && exists|
            added: Seq<i64>,
            removed: Seq<i64>,
        |
            {
                &&& sorted_listing(added, new.dom().difference(old.dom()))
                &&& sorted_listing(removed, old.dom().difference(new.dom()))
                &&& summary@ == site_delta_summary(
                    "site_count_mismatch"@,
                    None,
                    old.len(),
                    new.len(),
                    added,
                    removed,
                )
            }
    } else if exists|k: i64| site_blocks(old, new, k) {
        r matches SiteDiffResult::RebuildRequired { summary, details } && exists|k: i64|
            site_blocks(old, new, k) && blocking_report(old, new, k, summary@, details)
    } else if exists|k: i64, c: BakeryCommands| speed_change_for(old, new, k, c) {
        r matches SiteDiffResult::SpeedChanges { changes } && changes@.no_duplicates() && forall|
            c: BakeryCommands,
        | #[trigger] changes@.contains(c) <==> exists|k: i64| speed_change_for(old, new, k, c)
    } else {
        r is NoChange
    }
}

fn site_set_delta(old_sites: &HashMap<i64, BakeryCommands>, new_sites: &HashMap<i64, usize>) -> (r: (
    Vec<i64>,
    Vec<i64>,
))
    ensures
        sorted_listing(r.0@, new_sites@.dom().difference(old_sites@.dom())),
        sorted_listing(r.1@, old_sites@.dom().difference(new_sites@.dom())),
{
    let new_keys = map_keys(new_sites);
    let mut added: Vec<i64> = Vec::new();
    let mut i: usize = 0;
    while i < new_keys.len()
        invariant
            i <= new_keys@.len(),
            new_keys@.no_duplicates(),
            new_keys@.to_set() == new_sites@.dom(),
            strictly_sorted(added@),
            forall|x: i64| added@.contains(x) <==> (new_keys@.take(i as int).contains(x)
                && !old_sites@.contains_key(x)),
        decreases new_keys.len() - i,
    {
        let h = new_keys[i];
        let ghost prev = added@;
        proof {
            assert(new_keys@.take(i + 1) =~= new_keys@.take(i as int).push(h));
            if new_keys@.take(i as int).contains(h) {
                let p = choose|p: int| 0 <= p < i && new_keys@.take(i as int)[p] == h;
                assert(new_keys@[p] == new_keys@[i as int]);
            }
            assert(!new_keys@.take(i as int).contains(h));
        }
        if !old_sites.contains_key(&h) {
            sorted_insert(&mut added, h);
            proof {
                assert forall|x: i64| added@.contains(x) <==> prev.contains(x) || x == h by {
                    assert(added@.to_set().contains(x) == added@.contains(x));
                    assert(prev.to_set().contains(x) == prev.contains(x));
                }
            }
        }
        proof {
            assert forall|x: i64| added@.contains(x) <==> (new_keys@.take(i + 1).contains(x)
                && !old_sites@.contains_key(x)) by {
                assert(prev.contains(x) <==> (new_keys@.take(i as int).contains(x)
                    && !old_sites@.contains_key(x)));
                crate::summary::lemma_push_contains(new_keys@.take(i as int), h, x);
            }
        }
        i = i + 1;
    }
    proof {
        assert(new_keys@.take(new_keys@.len() as int) =~= new_keys@);
        assert forall|x: i64| added@.to_set().contains(x) <==> new_sites@.dom().difference(
            old_sites@.dom(),
        ).contains(x) by {
            assert(new_keys@.to_set().contains(x) == new_keys@.contains(x));
        }
        assert(added@.to_set() =~= new_sites@.dom().difference(old_sites@.dom()));
    }
    let old_keys = map_keys(old_sites);
    let mut removed: Vec<i64> = Vec::new();
    let mut j: usize = 0;
    while j < old_keys.len()
        invariant
            j <= old_keys@.len(),
            old_keys@.no_duplicates(),
            old_keys@.to_set() == old_sites@.dom(),
            strictly_sorted(removed@),
            forall|x: i64| removed@.contains(x) <==> (old_keys@.take(j as int).contains(x)
                && !new_sites@.contains_key(x)),
        decreases old_keys.len() - j,
    {
        let h = old_keys[j];
        let ghost prev = removed@;
        proof {
            assert(old_keys@.take(j + 1) =~= old_keys@.take(j as int).push(h));
            if old_keys@.take(j as int).contains(h) {
                let p = choose|p: int| 0 <= p < j && old_keys@.take(j as int)[p] == h;
                assert(old_keys@[p] == old_keys@[j as int]);
            }
            assert(!old_keys@.take(j as int).contains(h));
        }
        if !new_sites.contains_key(&h) {
            sorted_insert(&mut removed, h);
            proof {
                assert forall|x: i64| removed@.contains(x) <==> prev.contains(x) || x == h by {
                    assert(removed@.to_set().contains(x) == removed@.contains(x));
                    assert(prev.to_set().contains(x) == prev.contains(x));
                }
            }
        }
        proof {
            assert forall|x: i64| removed@.contains(x) <==> (old_keys@.take(j + 1).contains(x)
                && !new_sites@.contains_key(x)) by {
                assert(prev.contains(x) <==> (old_keys@.take(j as int).contains(x)
                    && !new_sites@.contains_key(x)));
                crate::summary::lemma_push_contains(old_keys@.take(j as int), h, x);
            }
        }
        j = j + 1;
    }
    proof {
        assert(old_keys@.take(old_keys@.len() as int) =~= old_keys@);
        assert forall|x: i64| removed@.to_set().contains(x) <==> old_sites@.dom().difference(
            new_sites@.dom(),
        ).contains(x) by {
            assert(old_keys@.to_set().contains(x) == old_keys@.contains(x));
        }
        assert(removed@.to_set() =~= old_sites@.dom().difference(new_sites@.dom()));
    }
    (added, removed)
}

/// ` <label>=[..]` when the hash list is short enough to show.
pub fn format_site_hash_preview(label: &str, hashes: &Vec<i64>, total_changed: usize) -> (r: Option<
    String,
>)
    ensures
        match site_hash_preview(label@, hashes@, total_changed as nat) {
            Some(t) => r matches Some(s) && s@ == t,
            None => r is None,
        },
{
    if hashes.len() == 0 || hashes.len() > SITE_DELTA_PREVIEW_THRESHOLD || total_changed
        > SITE_DELTA_PREVIEW_THRESHOLD {
        return None;
    }
    let mut s = owned(" ");
    append_str(&mut s, label);
    append_str(&mut s, "=");
    let list = format_i64_list(hashes);
    append_str(&mut s, list.as_str());
    Some(s)
}

/// Builds the summary of a site-set change.
pub fn format_site_delta_summary(
    reason: &str,
    missing_old_site_hash: Option<i64>,
    old_count: usize,
    new_count: usize,
    added_site_hashes: &Vec<i64>,
    removed_site_hashes: &Vec<i64>,
) -> (r: String)
    ensures
        r@ == site_delta_summary(
            reason@,
            missing_old_site_hash,
            old_count as nat,
            new_count as nat,
            added_site_hashes@,
            removed_site_hashes@,
        ),
{
    let mut summary = owned("Bakery full reload triggered by site diff: ");
    append_str(&mut summary, reason);
    append_str(&mut summary, " old_count=");
    append_str(&mut summary, dec_string(old_count as u64).as_str());
    append_str(&mut summary, " new_count=");
    append_str(&mut summary, dec_string(new_count as u64).as_str());
    append_str(&mut summary, " added_count=");
    append_str(&mut summary, dec_string(added_site_hashes.len() as u64).as_str());
    append_str(&mut summary, " removed_count=");
    append_str(&mut summary, dec_string(removed_site_hashes.len() as u64).as_str());
    let a = added_site_hashes.len();
    let b = removed_site_hashes.len();
    let total_changed: usize = if a > usize::MAX - b {
        usize::MAX
    } else {
        a + b
    };
    proof {
        let sum = (a + b) as nat;
        assert(site_hash_preview("added_preview"@, added_site_hashes@, total_changed as nat)
            == site_hash_preview("added_preview"@, added_site_hashes@, sum));
        assert(site_hash_preview("removed_preview"@, removed_site_hashes@, total_changed as nat)
            == site_hash_preview("removed_preview"@, removed_site_hashes@, sum));
    }
    let ghost base = summary@;
    match missing_old_site_hash {
        Some(site_hash) => {
            append_str(&mut summary, " missing_old_site_hash=");
            append_str(&mut summary, dec_string_i64(site_hash).as_str());
        },
        None => {},
    }
    let ghost with_missing = summary@;
    match format_site_hash_preview("added_preview", added_site_hashes, total_changed) {
        Some(p) => append_str(&mut summary, p.as_str()),
        None => {},
    }
    match format_site_hash_preview("removed_preview", removed_site_hashes, total_changed) {
        Some(p) => append_str(&mut summary, p.as_str()),
        None => {},
    }
    proof {
        let spec = site_delta_summary(
            reason@,
            missing_old_site_hash,
            old_count as nat,
            new_count as nat,
            added_site_hashes@,
            removed_site_hashes@,
        );
        assert(summary@ =~= spec);
    }
    summary
}

fn site_placement_of(c: &BakeryCommands) -> (r: (TcHandle, TcHandle, u16))
    ensures
        r == site_placement(*c),
{
    match c {
        BakeryCommands::AddSite { parent_class_id, up_parent_class_id, class_minor, .. } => (
            *parent_class_id,
            *up_parent_class_id,
            *class_minor,
        ),
        _ => (TcHandle(0), TcHandle(0), 0),
    }
}

fn format_structural_summary(site_hash: i64, old: &BakeryCommands, new: &BakeryCommands) -> (r: String)
    ensures
        r@ == structural_summary(site_hash, *old, *new),
{
    let (op, ou, om) = site_placement_of(old);
    let (np, nu, nm) = site_placement_of(new);
    let mut s = owned("Bakery full reload triggered by site diff: site_hash=");
    append_str(&mut s, dec_string_i64(site_hash).as_str());
    append_str(&mut s, " parent=");
    append_str(&mut s, op.as_tc_string().as_str());
    append_str(&mut s, "→");
    append_str(&mut s, np.as_tc_string().as_str());
    append_str(&mut s, " up_parent=");
    append_str(&mut s, ou.as_tc_string().as_str());
    append_str(&mut s, "→");
    append_str(&mut s, nu.as_tc_string().as_str());
    append_str(&mut s, " minor=0x");
    append_str(&mut s, hex_string(om as u64).as_str());
    append_str(&mut s, "→0x");
    append_str(&mut s, hex_string(nm as u64).as_str());
    assert(s@ =~= structural_summary(site_hash, *old, *new));
    s
}

/// Whether two site commands differ in placement (parents or minor).
pub fn is_structurally_different(a: &BakeryCommands, b: &BakeryCommands) -> (r: bool)
    ensures
        r == structurally_different(*a, *b),
{
    match (a, b) {
        (
            BakeryCommands::AddSite { site_hash, parent_class_id, up_parent_class_id, class_minor, .. },
            BakeryCommands::AddSite {
                site_hash: b_site_hash,
                parent_class_id: b_parent,
                up_parent_class_id: b_up_parent,
                class_minor: b_minor,
                ..
            },
        ) => {
            if site_hash != b_site_hash {
                return false;
            }
            parent_class_id.0 != b_parent.0 || up_parent_class_id.0 != b_up_parent.0 || *class_minor
                != *b_minor
        },
        _ => false,
    }
}

/// The old site carrying the new site's rates, when any rate differs.
pub fn site_speeds_changed(a: &BakeryCommands, b: &BakeryCommands) -> (r: Option<BakeryCommands>)
    ensures
        r == site_speed_change(*a, *b),
{
    match (a, b) {
        (
            BakeryCommands::AddSite {
                site_hash,
                parent_class_id,
                up_parent_class_id,
                class_minor,
                download_bandwidth_min,
                upload_bandwidth_min,
                download_bandwidth_max,
                upload_bandwidth_max,
            },
            BakeryCommands::AddSite {
                site_hash: b_site_hash,
                download_bandwidth_min: b_dmin,
                upload_bandwidth_min: b_umin,
                download_bandwidth_max: b_dmax,
                upload_bandwidth_max: b_umax,
                ..
            },
        ) => {
            if site_hash != b_site_hash {
                return None;
            }
            if *download_bandwidth_min != *b_dmin || *upload_bandwidth_min != *b_umin
                || *download_bandwidth_max != *b_dmax || *upload_bandwidth_max != *b_umax {
                Some(
                    BakeryCommands::AddSite {
                        site_hash: *site_hash,
                        parent_class_id: *parent_class_id,
                        up_parent_class_id: *up_parent_class_id,
                        class_minor: *class_minor,
                        download_bandwidth_min: *b_dmin,
                        upload_bandwidth_min: *b_umin,
                        download_bandwidth_max: *b_dmax,
                        upload_bandwidth_max: *b_umax,
                    },
                )
            } else {
                None
            }
        },
        _ => None,
    }
}

fn index_batch_sites(batch: &Vec<BakeryCommands>) -> (r: HashMap<i64, usize>)
    ensures
        forall|k: i64| #[trigger] r@.contains_key(k) <==> site_index_map(batch@).contains_key(k),
        forall|k: i64| r@.contains_key(k) ==> r@[k] as int == #[trigger] site_index_map(batch@)[k],
{
    let mut m: HashMap<i64, usize> = HashMap::new();
    let mut i: usize = 0;
    while i < batch.len()
        invariant
            i <= batch@.len(),
            forall|k: i64| #[trigger] m@.contains_key(k) <==> site_index_map(
                batch@.take(i as int),
            ).contains_key(k),
            forall|k: i64| m@.contains_key(k) ==> m@[k] as int == #[trigger] site_index_map(
                batch@.take(i as int),
            )[k],
        decreases batch.len() - i,
    {
        proof {
            assert(batch@.take(i + 1).drop_last() =~= batch@.take(i as int));
            assert(batch@.take(i + 1).last() == batch@[i as int]);
        }
        match &batch[i] {
            BakeryCommands::AddSite { site_hash, .. } => {
                m.insert(*site_hash, i);
            },
            _ => {},
        }
        i = i + 1;
    }
    assert(batch@.take(batch@.len() as int) =~= batch@);
    m
}

/// Compares the sites of `batch` with `old_sites`.
///
/// A different number of sites, a site of the old state missing from the
/// batch or a site moved to other parents (or another minor) requires a full
/// rebuild; otherwise every rate-only change is reported, or `NoChange`.
/// When several sites force a rebuild, the one reported is the first met in
/// the old map's iteration order.
pub fn diff_sites(batch: &Vec<BakeryCommands>, old_sites: &HashMap<i64, BakeryCommands>) -> (r:
    SiteDiffResult)
    ensures
        site_diff_matches(old_sites@, batch_sites(batch@), r),
{
    let ghost new_map = batch_sites(batch@);
    proof {
        lemma_site_index_map(batch@);
        assert(new_map.dom() =~= site_index_map(batch@).dom());
        assert forall|h: i64| #[trigger] new_map.contains_key(h) implies site_hash_of(new_map[h])
            == Some(h) by {
            assert(site_index_map(batch@).contains_key(h));
        }
    }
    let new_sites = index_batch_sites(batch);
    proof {
        assert(new_sites@.dom() =~= new_map.dom());
    }
    if old_sites.len() != new_sites.len() {
        let (added, removed) = site_set_delta(old_sites, &new_sites);
        proof {
            crate::summary::lemma_listing_len(added@, new_sites@.dom().difference(old_sites@.dom()));
            crate::summary::lemma_listing_len(removed@, old_sites@.dom().difference(new_sites@.dom()));
            lemma_delta_sizes(old_sites@.dom(), new_sites@.dom());
        }
        let summary = format_site_delta_summary(
            "site_count_mismatch",
            None,
            old_sites.len(),
            new_sites.len(),
            &added,
            &removed,
        );
        return SiteDiffResult::RebuildRequired { summary, details: None };
    }
    let keys = map_keys(old_sites);
    let mut speed_changes: Vec<BakeryCommands> = Vec::new();
    let mut i: usize = 0;
    while i < keys.len()
        invariant
            i <= keys@.len(),
            keys@.no_duplicates(),
            keys@.to_set() == old_sites@.dom(),
            new_map == batch_sites(batch@),
            new_sites@.dom() == new_map.dom(),
            forall|k: i64| new_sites@.contains_key(k) ==> (new_sites@[k] as int) < batch@.len()
                && batch@[new_sites@[k] as int] == #[trigger] new_map[k],
            old_sites@.len() == new_map.len(),
            forall|h: i64| #[trigger] new_map.contains_key(h) ==> site_hash_of(new_map[h]) == Some(h),
            forall|n: int| 0 <= n < i ==> !site_blocks(old_sites@, new_map, #[trigger] keys@[n]),
            speed_changes@.no_duplicates(),
            forall|c: BakeryCommands| #[trigger] speed_changes@.contains(c) <==> exists|n: int|
                0 <= n < i && speed_change_for(old_sites@, new_map, keys@[n], c),
        decreases keys.len() - i,
    {
        let k = keys[i];
        assert(keys@.to_set().contains(k));
        let old_cmd = old_sites.get(&k).unwrap();
        match new_sites.get(&k) {
            Some(j) => {
                let new_cmd = &batch[*j];
                proof {
                    assert(new_map.contains_key(k));
                    assert(*new_cmd == new_map[k]);
                    assert(*old_cmd == old_sites@[k]);
                }
                if is_structurally_different(old_cmd, new_cmd) {
                    let summary = format_structural_summary(k, old_cmd, new_cmd);
                    proof {
                        assert(site_blocks(old_sites@, new_map, k));
                        assert(blocking_report(
                            old_sites@,
                            new_map,
                            k,
                            summary@,
                            Some(StructuralSiteDiffDetails { site_hash: k }),
                        ));
                    }
                    let res = SiteDiffResult::RebuildRequired {
                        summary,
                        details: Some(StructuralSiteDiffDetails { site_hash: k }),
                    };
                    proof {
                        assert(old_sites@.len() == new_map.len());
                        assert(exists|h: i64| site_blocks(old_sites@, new_map, h));
                        assert(site_diff_matches(old_sites@, new_map, res));
                    }
                    return res;
                }
                match site_speeds_changed(old_cmd, new_cmd) {
                    Some(change) => {
                        proof {
                            lemma_speed_change_identifies_site(old_sites@, new_map, k, change);
                            assert forall|n: int| 0 <= n < i implies !speed_change_for(
                                old_sites@,
                                new_map,
                                keys@[n],
                                change,
                            ) by {
                                if speed_change_for(old_sites@, new_map, keys@[n], change) {
                                    lemma_speed_change_identifies_site(
                                        old_sites@,
                                        new_map,
                                        keys@[n],
                                        change,
                                    );
                                    assert(keys@[n] != keys@[i as int]);
                                }
                            }
                        }
                        let ghost prev = speed_changes@;
                        proof {
                            assert(!prev.contains(change));
                        }
                        speed_changes.push(change);
                        proof {
                            assert(speed_changes@.drop_last() =~= prev);
                            assert forall|a: int, b: int|
                                0 <= a < speed_changes@.len() && 0 <= b < speed_changes@.len() && a
                                    != b implies speed_changes@[a] != speed_changes@[b] by {
                                if a == prev.len() {
                                    assert(prev.contains(speed_changes@[b]) || b == a);
                                } else if b == prev.len() {
                                    assert(prev.contains(speed_changes@[a]));
                                } else {
                                    assert(prev[a] == speed_changes@[a]);
                                    assert(prev[b] == speed_changes@[b]);
                                }
                            }
                            assert forall|c: BakeryCommands| #[trigger] speed_changes@.contains(
                                c,
                            ) <==> exists|n: int|
                                0 <= n < i + 1 && speed_change_for(
                                    old_sites@,
                                    new_map,
                                    keys@[n],
                                    c,
                                ) by {
                                if speed_changes@.contains(c) {
                                    let p = choose|p: int|
                                        0 <= p < speed_changes@.len() && speed_changes@[p] == c;
                                    if p == speed_changes@.len() - 1 {
                                        assert(speed_change_for(old_sites@, new_map, keys@[i as int], c));
                                    } else {
                                        assert(prev[p] == c);
                                        assert(prev.contains(c));
                                    }
                                }
                                if exists|n: int|
                                    0 <= n < i + 1 && speed_change_for(
                                        old_sites@,
                                        new_map,
                                        keys@[n],
                                        c,
                                    ) {
                                    let n = choose|n: int|
                                        0 <= n < i + 1 && speed_change_for(
                                            old_sites@,
                                            new_map,
                                            keys@[n],
                                            c,
                                        );
                                    if n == i {
                                        assert(speed_changes@[speed_changes@.len() - 1] == c);
                                    } else {
                                        assert(prev.contains(c));
                                        let p = choose|p: int| 0 <= p < prev.len() && prev[p] == c;
                                        assert(speed_changes@[p] == c);
                                    }
                                }
                            }
                        }
                    },
                    None => {
                        proof {
                            assert forall|c: BakeryCommands| #[trigger] speed_changes@.contains(
                                c,
                            ) <==> exists|n: int|
                                0 <= n < i + 1 && speed_change_for(
                                    old_sites@,
                                    new_map,
                                    keys@[n],
                                    c,
                                ) by {
                                if exists|n: int|
                                    0 <= n < i + 1 && speed_change_for(
                                        old_sites@,
                                        new_map,
                                        keys@[n],
                                        c,
                                    ) {
                                    let n = choose|n: int|
                                        0 <= n < i + 1 && speed_change_for(
                                            old_sites@,
                                            new_map,
                                            keys@[n],
                                            c,
                                        );
                                    if n == i {
                                        assert(false);
                                    }
                                }
                            }
                        }
                    },
                }
            },
            None => {
                let (added, removed) = site_set_delta(old_sites, &new_sites);
                proof {
                    crate::summary::lemma_listing_len(
                        added@,
                        new_sites@.dom().difference(old_sites@.dom()),
                    );
                    crate::summary::lemma_listing_len(
                        removed@,
                        old_sites@.dom().difference(new_sites@.dom()),
                    );
                    lemma_delta_sizes(old_sites@.dom(), new_sites@.dom());
                }
                let summary = format_site_delta_summary(
                    "site_set_changed",
                    Some(k),
                    old_sites.len(),
                    new_sites.len(),
                    &added,
                    &removed,
                );
                proof {
                    assert(site_blocks(old_sites@, new_map, k));
                    assert(blocking_report(old_sites@, new_map, k, summary@, None));
                }
                let res = SiteDiffResult::RebuildRequired { summary, details: None };
                proof {
                    assert(old_sites@.len() == new_map.len());
                    assert(exists|h: i64| site_blocks(old_sites@, new_map, h));
                    assert(site_diff_matches(old_sites@, new_map, res));
                }
                return res;
            },
        }
        i = i + 1;
    }
    proof {
        assert forall|k: i64| !site_blocks(old_sites@, new_map, k) by {
            if old_sites@.contains_key(k) {
                assert(keys@.to_set().contains(k));
                let n = choose|n: int| 0 <= n < keys@.len() && keys@[n] == k;
                assert(!site_blocks(old_sites@, new_map, keys@[n]));
            }
        }
        assert forall|c: BakeryCommands| #[trigger] speed_changes@.contains(c) <==> exists|k: i64|
            speed_change_for(old_sites@, new_map, k, c) by {
            if exists|k: i64| speed_change_for(old_sites@, new_map, k, c) {
                let k = choose|k: i64| speed_change_for(old_sites@, new_map, k, c);
                assert(keys@.to_set().contains(k));
                let n = choose|n: int| 0 <= n < keys@.len() && keys@[n] == k;
                assert(speed_change_for(old_sites@, new_map, keys@[n], c));
            }
        }
    }
    if speed_changes.len() > 0 {
        proof {
            let c = speed_changes@[0];
            assert(speed_changes@.contains(c));
        }
        return SiteDiffResult::SpeedChanges { changes: speed_changes };
    }
    proof {
        assert forall|k: i64, c: BakeryCommands| !speed_change_for(old_sites@, new_map, k, c) by {
            if speed_change_for(old_sites@, new_map, k, c) {
                assert(speed_changes@.contains(c));
            }
        }
    }
    SiteDiffResult::NoChange
}

proof fn lemma_speed_change_identifies_site(
    old: Map<i64, BakeryCommands>,
    new: Map<i64, BakeryCommands>,
    k: i64,
    c: BakeryCommands,
)
    requires
        speed_change_for(old, new, k, c),
        forall|h: i64| #[trigger] new.contains_key(h) ==> site_hash_of(new[h]) == Some(h),
    ensures
        site_hash_of(c) == Some(k),
{
}

proof fn lemma_delta_sizes(old: Set<i64>, new: Set<i64>)
    requires
        old.finite(),
        new.finite(),
    ensures
        new.difference(old).len() <= new.len(),
        old.difference(new).len() <= old.len(),
{
    vstd::set_lib::lemma_len_difference(new, old);
    vstd::set_lib::lemma_len_difference(old, new);
}

} // verus!
