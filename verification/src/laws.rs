//! Properties that hold across Bakery's operations.
use vstd::prelude::*;
use crate::commands::{BakeryCommands, RuntimeNodeOperationStatus};
use crate::grouped_events::{
    flush_events, suppression_message, tally_logs, tally_step, GroupedBakeryEventState,
    BAKERY_GROUPED_EVENT_DETAIL_LIMIT,
};
use crate::hierarchy::{depth, parents_ranked, prune_ordered};
use crate::ip_mapping::{
    committed_map, key_at, parsed_ip, remapped_map, stale_keys, table_has, table_map, table_wf, KeyView, MappingKey,
    MappingVal, lemma_table_map_at,
};
use crate::tc_handle::TcHandle;
use crate::diff::sites::{site_diff_matches, SiteDiffResult};
use crate::mapped_limit::{kept_existing, kept_fill, kept_mapped, mapped_hash_of, surviving};
use crate::migration::{minor_taken, migration_uses_minor, shadow_minor_choice, shadow_minor_free, Migration, MigrationStage};
use crate::runtime::{lifecycle_for, status_for_lifecycle, RuntimeVirtualizedActiveBranch};
use crate::shaping_state::{mutation_blocker, ShapingFlags};
use crate::tc_handle::{handle_value, major_of, minor_of, lemma_value_from_parts, lemma_handle_value_parts};
use crate::telemetry::{activity_after, entry_is, BakeryActivityEntry, BAKERY_EVENT_LIMIT};

verus! {

/// The activity log never grows past [`BAKERY_EVENT_LIMIT`] entries; the newest
/// event comes first, and below the limit nothing older is lost.
pub proof fn law_activity_log_is_bounded_and_newest_first(
    old: Seq<BakeryActivityEntry>,
    new: Seq<BakeryActivityEntry>,
    ts: u64,
    event: Seq<char>,
    status: Seq<char>,
    site_hash: Option<i64>,
    site_name: Option<Seq<char>>,
    summary: Seq<char>,
)
    requires
        old.len() <= BAKERY_EVENT_LIMIT,
        activity_after(old, new, ts, event, status, site_hash, site_name, summary),
    ensures
        new.len() <= BAKERY_EVENT_LIMIT,
        entry_is(new[0], ts, event, status, site_hash, site_name, summary),
        old.len() < BAKERY_EVENT_LIMIT ==> new.drop_first() == old,
        old.len() == BAKERY_EVENT_LIMIT ==> new.drop_first() == old.drop_last(),
{
    if old.len() < BAKERY_EVENT_LIMIT {
        assert(new.drop_first() =~= old);
    } else {
        assert(new.drop_first() =~= old.drop_last());
    }
}

/// A group logs at most [`BAKERY_GROUPED_EVENT_DETAIL_LIMIT`] detailed events;
/// every later event is counted as suppressed instead.
pub proof fn law_grouped_events_log_at_most_the_detail_limit(t: GroupedBakeryEventState)
    requires
        t.emitted <= BAKERY_GROUPED_EVENT_DETAIL_LIMIT,
    ensures
        tally_step(t).emitted <= BAKERY_GROUPED_EVENT_DETAIL_LIMIT,
        tally_logs(t) <==> tally_step(t).emitted == t.emitted + 1,
        !tally_logs(t) && t.suppressed < usize::MAX ==> tally_step(t).suppressed == t.suppressed + 1
            && tally_step(t).emitted == t.emitted,
{
}

/// A group's tally after `n` more events.
pub open spec fn tally_after(t: GroupedBakeryEventState, n: nat) -> GroupedBakeryEventState
    decreases n,
{
    if n == 0 {
        t
    } else {
        tally_step(tally_after(t, (n - 1) as nat))
    }
}

/// Of `n` events of one group in a batch, exactly the first
/// `min(n, BAKERY_GROUPED_EVENT_DETAIL_LIMIT)` are logged in detail; the
/// others are only counted, and flushing the group logs one
/// `Suppressed <k> additional ...` entry exactly when `k` (their number) is
/// above zero.
pub proof fn law_grouped_events_log_the_first_events_of_a_group(t: GroupedBakeryEventState, n: nat)
    requires
        t.emitted == 0,
        t.suppressed == 0,
        n <= usize::MAX,
    ensures
        forall|k: nat| k < n ==> (tally_logs(#[trigger] tally_after(t, k)) <==> k < BAKERY_GROUPED_EVENT_DETAIL_LIMIT),
        tally_after(t, n).emitted == if n < BAKERY_GROUPED_EVENT_DETAIL_LIMIT {
            n
        } else {
            BAKERY_GROUPED_EVENT_DETAIL_LIMIT as nat
        },
        tally_after(t, n).suppressed == if n < BAKERY_GROUPED_EVENT_DETAIL_LIMIT {
            0
        } else {
            (n - BAKERY_GROUPED_EVENT_DETAIL_LIMIT) as nat
        },
        tally_after(t, n).event == t.event,
        tally_after(t, n).status == t.status,
        tally_after(t, n).suppression_summary == t.suppression_summary,
        flush_events(seq![tally_after(t, n)]) == if n > BAKERY_GROUPED_EVENT_DETAIL_LIMIT {
            seq![(t.event@, t.status@, suppression_message(tally_after(t, n)))]
        } else {
            Seq::<(Seq<char>, Seq<char>, Seq<char>)>::empty()
        },
    decreases n,
{
    if n > 0 {
        law_grouped_events_log_the_first_events_of_a_group(t, (n - 1) as nat);
    }
    assert forall|k: nat| k < n implies (tally_logs(#[trigger] tally_after(t, k)) <==> k
        < BAKERY_GROUPED_EVENT_DETAIL_LIMIT) by {
        if k < n - 1 {
        } else {
            assert(k == n - 1);
        }
    }
    let f = seq![tally_after(t, n)];
    assert(f.drop_last() =~= Seq::<GroupedBakeryEventState>::empty());
    assert(flush_events(f.drop_last()) =~= Seq::<(Seq<char>, Seq<char>, Seq<char>)>::empty());
}

/// The mapped-circuit limit never drops a command that is not a mapped circuit
/// addition, and every mapped circuit that survives is one that was kept.
pub proof fn law_mapped_limit_keeps_unmapped_commands(batch: Seq<BakeryCommands>, keep: Set<i64>)
    ensures
        surviving(batch, keep).filter(|c: BakeryCommands| mapped_hash_of(c) is None) == batch.filter(
            |c: BakeryCommands| mapped_hash_of(c) is None,
        ),
        forall|i: int|
            0 <= i < surviving(batch, keep).len() ==> (mapped_hash_of(#[trigger] surviving(batch, keep)[i]) matches Some(
                h,
            ) ==> keep.contains(h)),
    decreases batch.len(),
{
    reveal(Seq::filter);
    if batch.len() > 0 {
        law_mapped_limit_keeps_unmapped_commands(batch.drop_last(), keep);
        let prev = surviving(batch.drop_last(), keep);
        let last = batch.last();
        let unmapped = |c: BakeryCommands| mapped_hash_of(c) is None;
        if mapped_hash_of(last) is None || keep.contains(mapped_hash_of(last)->0) {
            assert(surviving(batch, keep) == prev.push(last));
            assert(prev.push(last).drop_last() =~= prev);
        } else {
            assert(surviving(batch, keep) == prev);
        }
        assert(batch.drop_last() =~= batch.take(batch.len() - 1));
    }
}

/// When the limit is exceeded, existing mapped circuits are kept first: the
/// kept set holds the first `limit` existing ones, in batch order.
pub proof fn law_mapped_limit_prefers_existing(cands: Seq<i64>, existing: Set<i64>, limit: nat, h: i64)
    requires
        kept_existing(cands, existing, limit).contains(h),
    ensures
        kept_mapped(cands, existing, limit).contains(h),
        existing.contains(h),
{
    let f = cands.filter(|x: i64| existing.contains(x));
    let first = kept_existing(cands, existing, limit);
    let i = choose|i: int| 0 <= i < first.len() && first[i] == h;
    assert(first.to_set().contains(h));
    assert(f[i] == h);
    cands.lemma_filter_pred(|x: i64| existing.contains(x), i);
}

/// When the limit is exceeded, at most `limit` mapped circuits are kept, and
/// each kept one is a candidate of the batch.
pub proof fn law_mapped_limit_keeps_at_most_the_limit(cands: Seq<i64>, existing: Set<i64>, limit: nat)
    ensures
        kept_mapped(cands, existing, limit).finite(),
        kept_mapped(cands, existing, limit).len() <= limit,
        forall|h: i64| #[trigger] kept_mapped(cands, existing, limit).contains(h) ==> cands.contains(h),
{
    let first = kept_existing(cands, existing, limit);
    let fill = kept_fill(cands, existing, limit);
    let f1 = cands.filter(|x: i64| existing.contains(x));
    let f2 = cands.filter(|x: i64| !first.contains(x));
    first.lemma_cardinality_of_set();
    fill.lemma_cardinality_of_set();
    vstd::set_lib::lemma_len_union(first.to_set(), fill.to_set());
    assert forall|h: i64| #[trigger] kept_mapped(cands, existing, limit).contains(h) implies cands.contains(h) by {
        if first.to_set().contains(h) {
            let i = choose|i: int| 0 <= i < first.len() && first[i] == h;
            assert(f1[i] == h);
            assert(f1.contains(h));
            cands.lemma_filter_contains_rev(|x: i64| existing.contains(x), h);
        } else {
            assert(fill.to_set().contains(h));
            let i = choose|i: int| 0 <= i < fill.len() && fill[i] == h;
            assert(f2[i] == h);
            assert(f2.contains(h));
            cands.lemma_filter_contains_rev(|x: i64| !first.contains(x), h);
        }
    }
}

/// Diffing a set of sites against itself finds nothing to do.
pub proof fn law_unchanged_sites_need_no_change(sites: Map<i64, BakeryCommands>, r: SiteDiffResult)
    requires
        site_diff_matches(sites, sites, r),
    ensures
        r is NoChange,
{
    assert(!exists|k: i64| crate::diff::sites::site_blocks(sites, sites, k));
    assert(!exists|k: i64, c: BakeryCommands| crate::diff::sites::speed_change_for(sites, sites, k, c));
}

/// A shadow minor chosen for a migration is free in both majors: no site,
/// circuit or unfinished migration (in particular no migration queued earlier)
/// holds it there.
pub proof fn law_shadow_minor_is_unique_among_pending_migrations(
    sites: Map<i64, BakeryCommands>,
    circuits: Map<i64, BakeryCommands>,
    migrations: Map<i64, Migration>,
    down_major: u16,
    up_major: u16,
    m: u16,
    k: i64,
)
    requires
        shadow_minor_choice(
            Some(m),
            |x: u16| shadow_minor_free(sites, circuits, migrations, down_major, up_major, x),
        ),
        migrations.contains_key(k),
        migrations[k].stage != MigrationStage::Done,
        migrations[k].class_major == down_major || migrations[k].up_class_major == up_major,
    ensures
        migrations[k].shadow_minor != m,
{
    let mig = migrations[k];
    assert(migrations.values().contains(mig));
    if mig.shadow_minor == m {
        if mig.class_major == down_major {
            assert(migration_uses_minor(mig, down_major, false, m));
            assert(minor_taken(sites, circuits, migrations, down_major, false, m));
        } else {
            assert(migration_uses_minor(mig, up_major, true, m));
            assert(minor_taken(sites, circuits, migrations, up_major, true, m));
        }
    }
}

/// Children are pruned before their parents: in prune order a site comes
/// before its parent.
pub proof fn law_prune_order_puts_children_first(
    r: Seq<i64>,
    parents: Map<i64, Option<i64>>,
    rank: spec_fn(i64) -> nat,
    i: int,
    j: int,
)
    requires
        parents_ranked(parents, rank),
        prune_ordered(r, |s: i64| depth(parents, rank, s)),
        0 <= i < r.len(),
        0 <= j < r.len(),
        parents.contains_key(r[i]),
        parents[r[i]] == Some(r[j]),
    ensures
        i < j,
{
    assert(depth(parents, rank, r[i]) == 1 + depth(parents, rank, r[j]));
    if j < i {
        assert(crate::hierarchy::prunes_before(
            depth(parents, rank, r[j]),
            r[j],
            depth(parents, rank, r[i]),
            r[i],
        ));
    }
    if i == j {
        assert(r[i] == r[j]);
        assert(rank(r[j]) < rank(r[i]));
    }
}

/// A node whose inactive branch still awaits pruning is never reported
/// `Completed`: after a restore it awaits cleanup, after a cutover likewise.
pub proof fn law_pending_prune_is_never_reported_completed(branch: RuntimeVirtualizedActiveBranch)
    ensures
        status_for_lifecycle(lifecycle_for(branch, true), true) == RuntimeNodeOperationStatus::AppliedAwaitingCleanup,
        status_for_lifecycle(lifecycle_for(branch, false), false) == RuntimeNodeOperationStatus::Completed,
{
}

/// Live shaping-tree mutations are allowed exactly when no full reload runs,
/// the queue mode is not `observe`, and the shaping tree is active.
pub proof fn law_live_mutations_allowed_exactly_when_shaping(flags: ShapingFlags, observe_mode: bool)
    ensures
        mutation_blocker(flags, observe_mode) is None <==> (!flags.full_reload_in_progress && !observe_mode
            && flags.shaping_tree_active),
{
}

/// Splitting a handle into major and minor and joining them again gives the
/// handle back, and joining then splitting gives the parts back.
pub proof fn law_handle_parts_round_trip(v: u32, major: u16, minor: u16)
    ensures
        handle_value(major_of(v), minor_of(v)) == v,
        major_of(handle_value(major, minor)) == major,
        minor_of(handle_value(major, minor)) == minor,
{
    lemma_value_from_parts(v);
    lemma_handle_value_parts(major, minor);
}

/// A hexadecimal rendering is a non-empty run of hexadecimal digits with the
/// rendered value.
pub proof fn lemma_hex_seq_reads_back(n: nat)
    ensures
        crate::text::hex_seq(n).len() >= 1,
        crate::tc_handle::all_hex(crate::text::hex_seq(n)),
        crate::tc_handle::hex_value(crate::text::hex_seq(n)) == n,
        forall|i: int|
            0 <= i < crate::text::hex_seq(n).len() ==> (#[trigger] crate::text::hex_seq(n)[i] != ':'
                && !crate::text::is_ws(crate::text::hex_seq(n)[i])),
    decreases n,
{
    let h = crate::text::hex_seq(n);
    if n < 16 {
        assert(crate::tc_handle::hex_digit_value(crate::text::hex_char(n)) == Some(n));
        assert(h.drop_last() =~= Seq::<char>::empty());
        assert(crate::tc_handle::hex_value(h.drop_last()) == 0);
        assert(h.last() == crate::text::hex_char(n));
        assert(crate::tc_handle::hex_value(h) == n);
    } else {
        lemma_hex_seq_reads_back(n / 16);
        let d = (n % 16) as nat;
        assert(crate::tc_handle::hex_digit_value(crate::text::hex_char(d)) == Some(d));
        assert(h.drop_last() =~= crate::text::hex_seq(n / 16));
        assert(h.last() == crate::text::hex_char(d));
        assert(crate::tc_handle::hex_value(h) == (n / 16) * 16 + d);
        assert((n / 16) * 16 + n % 16 == n) by (nonlinear_arith);
        assert forall|i: int| 0 <= i < h.len() implies (#[trigger] crate::tc_handle::hex_digit_value(h[i])) is Some by {
            if i < h.len() - 1 {
                assert(h[i] == crate::text::hex_seq(n / 16)[i]);
            }
        }
        assert forall|i: int| 0 <= i < h.len() implies (#[trigger] h[i] != ':' && !crate::text::is_ws(h[i])) by {
            if i < h.len() - 1 {
                assert(h[i] == crate::text::hex_seq(n / 16)[i]);
            }
        }
    }
}

/// Rendering a handle as `tc` prints it and parsing the text back gives the
/// same handle.
#[verifier::spinoff_prover]
#[verifier::rlimit(40)]
pub proof fn law_handle_text_round_trip(v: u32)
    ensures
        crate::tc_handle::parse_tc_handle(crate::tc_handle::tc_seq(v)) == Ok::<u32, crate::tc_handle::TcHandleParseError>(v),
{
    let maj = major_of(v);
    let min = minor_of(v);
    let h1 = crate::text::hex_seq(maj as nat);
    let h2 = crate::text::hex_seq(min as nat);
    lemma_hex_seq_reads_back(maj as nat);
    lemma_hex_seq_reads_back(min as nat);
    reveal_strlit("0x");
    reveal_strlit(":0x");
    reveal_strlit("root");
    reveal_strlit("none");
    let t = crate::tc_handle::tc_seq(v);
    assert(t == "0x"@ + h1 + ":0x"@ + h2);
    let i: int = 2 + h1.len() as int;
    assert(t.len() == 5 + h1.len() + h2.len());
    assert(t[0] == '0' && t[1] == 'x');
    assert(t[i] == ':');
    assert forall|k: int| 0 <= k < i implies t[k] != ':' by {
        if k >= 2 {
            assert(t[k] == h1[k - 2]);
        }
    }
    assert(t.last() == h2[h2.len() - 1]);
    // Trimming leaves the text unchanged.
    assert(crate::text::lead_ws(t) == 0);
    assert(crate::text::trail_ws(t) == 0);
    assert(t.skip(0) =~= t);
    assert(t.take(t.len() as int) =~= t);
    assert(crate::text::trim_seq(t) == t);
    assert(t != "root"@) by {
        assert(t[0] != "root"@[0]);
    }
    assert(t != "none"@) by {
        assert(t[0] != "none"@[0]);
    }
    assert(crate::text::first_index_of(t, ':') == Some(i)) by {
        assert(exists|x: int| 0 <= x < t.len() && t[x] == ':');
        let c = choose|x: int| 0 <= x < t.len() && t[x] == ':' && forall|k: int| 0 <= k < x ==> t[k] != ':';
        assert(0 <= i < t.len() && t[i] == ':' && forall|k: int| 0 <= k < i ==> t[k] != ':');
        if c < i {
            assert(t[c] != ':');
        }
        if c > i {
            assert(t[i] != ':');
        }
    }
    let major_text = t.subrange(0, i);
    let minor_text = t.subrange(i + 1, t.len() as int);
    assert(major_text =~= "0x"@ + h1);
    assert(minor_text =~= "0x"@ + h2);
    assert(crate::tc_handle::strip_hex_prefix(major_text) =~= h1);
    assert(crate::tc_handle::strip_hex_prefix(minor_text) =~= h2);
    assert(crate::text::first_index_of(minor_text, ':') is None) by {
        assert forall|x: int| 0 <= x < minor_text.len() implies minor_text[x] != ':' by {
            if x >= 2 {
                assert(minor_text[x] == h2[x - 2]);
            }
        }
    }
    assert(crate::tc_handle::parse_part(major_text) == Some(maj));
    assert(crate::tc_handle::parse_part(minor_text) == Some(min));
    lemma_value_from_parts(v);
}

/// A commit deletes exactly the live mappings that are neither staged nor of
/// an unknown circuit: a mapping of an unknown circuit is never deleted, and
/// every staged mapping is live afterwards.
pub proof fn law_commit_deletes_exactly_the_stale_mappings(
    cur: Seq<(MappingKey, MappingVal)>,
    unknown: Set<KeyView>,
    staged: Map<KeyView, MappingVal>,
    k: KeyView,
)
    requires
        table_wf(cur),
    ensures
        stale_keys(cur, unknown, staged).contains(k) <==> (table_map(cur).contains_key(k) && !unknown.contains(k)
            && !staged.contains_key(k)),
        unknown.contains(k) && table_map(cur).contains_key(k) ==> committed_map(
            table_map(cur),
            unknown,
            staged,
        ).contains_key(k),
        staged.contains_key(k) ==> committed_map(table_map(cur), unknown, staged).contains_key(k) && committed_map(
            table_map(cur),
            unknown,
            staged,
        )[k] == staged[k],
    decreases cur.len(),
{
    if cur.len() > 0 {
        let rest = cur.drop_last();
        assert(table_wf(rest)) by {
            assert forall|i: int, j: int| 0 <= i < j < rest.len() implies key_at(rest, i) != key_at(rest, j) by {
                assert(key_at(rest, i) == key_at(cur, i));
                assert(key_at(rest, j) == key_at(cur, j));
            }
        }
        law_commit_deletes_exactly_the_stale_mappings(rest, unknown, staged, k);
        let last = key_at(cur, cur.len() - 1);
        assert(cur.last().0.key_view() == last);
        crate::summary::lemma_push_contains(stale_keys(rest, unknown, staged), last, k);
        assert(table_has(cur, k) <==> (table_has(rest, k) || k == last)) by {
            if table_has(cur, k) {
                let j = choose|j: int| 0 <= j < cur.len() && key_at(cur, j) == k;
                if j < cur.len() - 1 {
                    assert(key_at(rest, j) == k);
                }
            }
            if table_has(rest, k) {
                let j = choose|j: int| 0 <= j < rest.len() && key_at(rest, j) == k;
                assert(key_at(cur, j) == k);
            }
        }
    }
}

/// Remapping a migration's addresses points each of them at the target
/// class and leaves every other address's mapping as it was.
pub proof fn law_remap_touches_only_the_migrating_addresses(
    m: Map<KeyView, MappingVal>,
    ips: Seq<String>,
    target: TcHandle,
    k: KeyView,
)
    ensures
        (exists|i: int| 0 <= i < ips.len() && #[trigger] parsed_ip(ips[i]@) == k) ==> remapped_map(
            m,
            ips,
            target,
        ).contains_key(k) && remapped_map(m, ips, target)[k].handle == target,
        !(exists|i: int| 0 <= i < ips.len() && #[trigger] parsed_ip(ips[i]@) == k) ==> remapped_map(
            m,
            ips,
            target,
        ).get(k) == m.get(k),
    decreases ips.len(),
{
    if ips.len() > 0 {
        let rest = ips.drop_last();
        law_remap_touches_only_the_migrating_addresses(m, rest, target, k);
        if exists|i: int| 0 <= i < ips.len() && #[trigger] parsed_ip(ips[i]@) == k {
            if parsed_ip(ips.last()@) != k {
                let i = choose|i: int| 0 <= i < ips.len() && #[trigger] parsed_ip(ips[i]@) == k;
                assert(parsed_ip(rest[i]@) == k);
            }
        } else {
            assert forall|i: int| 0 <= i < rest.len() implies #[trigger] parsed_ip(rest[i]@) != k by {
                assert(parsed_ip(ips[i]@) != k);
            }
            assert(parsed_ip(ips[ips.len() - 1]@) != k);
        }
    }
}

} // verus!
