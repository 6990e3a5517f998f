//! Per-batch rate limiting of repetitive activity events: the first few events
//! of a group are logged in detail, the rest are counted and summarised once.
use vstd::prelude::*;
use crate::commands::opt_view;
use crate::telemetry::{
    activity_after, entry_is, push_bakery_event, push_bakery_event_with_site_name,
    BakeryActivityEntry, BakeryTelemetryState, BAKERY_EVENT_LIMIT,
};
use crate::text::{append_str, dec_seq, dec_string, owned};

verus! {

/// Number of detailed events logged per group and batch.
pub const BAKERY_GROUPED_EVENT_DETAIL_LIMIT: usize = 3;

/// Lexicographic order of character sequences, which is the order of `String`s.
pub open spec fn chars_lt(a: Seq<char>, b: Seq<char>) -> bool
    decreases a.len(),
{
    if a.len() == 0 {
        b.len() > 0
    } else if b.len() == 0 {
        false
    } else if a[0] != b[0] {
        (a[0] as int) < (b[0] as int)
    } else {
        chars_lt(a.drop_first(), b.drop_first())
    }
}

/// `chars_lt` is irreflexive and total on distinct sequences.
pub proof fn lemma_chars_lt_trichotomy(a: Seq<char>, b: Seq<char>)
    ensures
        !(chars_lt(a, b) && chars_lt(b, a)),
        a != b ==> chars_lt(a, b) || chars_lt(b, a),
        !chars_lt(a, a),
    decreases a.len(),
{
    if a.len() > 0 && b.len() > 0 && a[0] == b[0] {
        lemma_chars_lt_trichotomy(a.drop_first(), b.drop_first());
        if a != b {
            assert(a.drop_first() != b.drop_first()) by {
                if a.drop_first() == b.drop_first() {
                    assert(a =~= seq![a[0]] + a.drop_first());
                    assert(b =~= seq![b[0]] + b.drop_first());
                }
            }
        }
    } else if a.len() == 0 && b.len() == 0 {
        assert(a =~= b);
    }
    if a.len() > 0 {
        lemma_chars_lt_trichotomy(a.drop_first(), a.drop_first());
    }
}

/// `chars_lt` is transitive.
pub proof fn lemma_chars_lt_transitive(a: Seq<char>, b: Seq<char>, c: Seq<char>)
    requires
        chars_lt(a, b),
        chars_lt(b, c),
    ensures
        chars_lt(a, c),
    decreases a.len(),
{
    if a.len() > 0 && b.len() > 0 && c.len() > 0 && a[0] == b[0] && b[0] == c[0] {
        lemma_chars_lt_transitive(a.drop_first(), b.drop_first(), c.drop_first());
    }
}

/// Tally of one event group within a batch.
#[derive(Debug)]
pub struct GroupedBakeryEventState {
    /// Event code used for the suppression summary.
    pub event: String,
    /// Status used for the suppression summary.
    pub status: String,
    /// Detailed events logged so far.
    pub emitted: usize,
    /// Events counted but not logged.
    pub suppressed: usize,
    /// Noun phrase naming the suppressed events.
    pub suppression_summary: String,
}

/// The tally after one more event of its group.
pub open spec fn tally_step(s: GroupedBakeryEventState) -> GroupedBakeryEventState {
    if s.emitted < BAKERY_GROUPED_EVENT_DETAIL_LIMIT {
        GroupedBakeryEventState { emitted: (s.emitted + 1) as usize, ..s }
    } else {
        GroupedBakeryEventState {
            suppressed: if s.suppressed < usize::MAX {
                (s.suppressed + 1) as usize
            } else {
                s.suppressed
            },
            ..s
        }
    }
}

/// Whether the next event of a group with this tally is logged in detail.
pub open spec fn tally_logs(s: GroupedBakeryEventState) -> bool {
    s.emitted < BAKERY_GROUPED_EVENT_DETAIL_LIMIT
}

/// Keys in strictly increasing order.
pub open spec fn keys_sorted(keys: Seq<Seq<char>>) -> bool {
    forall|i: int, j: int| 0 <= i < j < keys.len() ==> chars_lt(#[trigger] keys[i], #[trigger] keys[j])
}

/// Groups of events, ordered by their key.
#[derive(Debug)]
pub struct GroupedBakeryEventLimiter {
    keys: Vec<String>,
    states: Vec<GroupedBakeryEventState>,
}

/// Position of a key, if present.
pub open spec fn key_position(keys: Seq<Seq<char>>, k: Seq<char>) -> Option<int>
    decreases keys.len(),
{
    if keys.len() == 0 {
        None
    } else if keys.last() == k {
        Some(keys.len() - 1)
    } else {
        key_position(keys.drop_last(), k)
    }
}

/// `key_position` finds exactly the index holding the key.
pub proof fn lemma_key_position(keys: Seq<Seq<char>>, k: Seq<char>)
    requires
        keys_sorted(keys),
    ensures
        key_position(keys, k) matches Some(i) ==> 0 <= i < keys.len() && keys[i] == k,
        key_position(keys, k) is None ==> forall|i: int| 0 <= i < keys.len() ==> keys[i] != k,
        forall|i: int| 0 <= i < keys.len() && keys[i] == k ==> key_position(keys, k) == Some(i),
    decreases keys.len(),
{
    if keys.len() > 0 {
        let d = keys.drop_last();
        assert(keys_sorted(d));
        lemma_key_position(d, k);
        if keys.last() == k {
            assert forall|i: int| 0 <= i < keys.len() && keys[i] == k implies i == keys.len() - 1 by {
                if i < keys.len() - 1 {
                    assert(chars_lt(keys[i], keys[keys.len() - 1]));
                    lemma_chars_lt_trichotomy(k, k);
                }
            }
        } else {
            assert forall|i: int| 0 <= i < keys.len() && keys[i] == k implies key_position(keys, k)
                == Some(i) by {
                assert(d[i] == keys[i]);
            }
        }
    }
}

/// Sequence of the views of the given strings.
pub open spec fn views(v: Seq<String>) -> Seq<Seq<char>> {
    v.map_values(|s: String| s@)
}

/// The prefix order of characters decides `chars_lt` after a common prefix.
pub proof fn lemma_chars_lt_skip(a: Seq<char>, b: Seq<char>, n: int)
    requires
        0 <= n <= a.len(),
        n <= b.len(),
        a.take(n) == b.take(n),
    ensures
        chars_lt(a, b) == chars_lt(a.skip(n), b.skip(n)),
    decreases n,
{
    if n == 0 {
        assert(a.skip(0) =~= a);
        assert(b.skip(0) =~= b);
    } else {
        assert(a[0] == a.take(n)[0]);
        assert(b[0] == b.take(n)[0]);
        assert(a.drop_first().take(n - 1) =~= a.take(n).drop_first());
        assert(b.drop_first().take(n - 1) =~= b.take(n).drop_first());
        lemma_chars_lt_skip(a.drop_first(), b.drop_first(), n - 1);
        assert(a.drop_first().skip(n - 1) =~= a.skip(n));
        assert(b.drop_first().skip(n - 1) =~= b.skip(n));
    }
}

/// Three-way comparison of character sequences: negative, zero or positive.
pub fn compare_chars(a: &Vec<char>, b: &Vec<char>) -> (r: i8)
    ensures
        (r == 0) == (a@ == b@),
        (r < 0) == chars_lt(a@, b@),
        (r > 0) == chars_lt(b@, a@),
{
    let mut i: usize = 0;
    while i < a.len() && i < b.len()
        invariant
            i <= a@.len(),
            i <= b@.len(),
            a@.take(i as int) == b@.take(i as int),
        decreases a@.len() - i,
    {
        if a[i] != b[i] {
            proof {
                lemma_chars_lt_skip(a@, b@, i as int);
                lemma_chars_lt_skip(b@, a@, i as int);
                assert(a@.skip(i as int)[0] == a@[i as int]);
                assert(b@.skip(i as int)[0] == b@[i as int]);
                assert(a@ != b@) by {
                    if a@ == b@ {
                        assert(a@[i as int] == b@[i as int]);
                    }
                }
            }
            if a[i] < b[i] {
                return -1;
            } else {
                return 1;
            }
        }
        assert(a@.take(i + 1) =~= a@.take(i as int).push(a@[i as int]));
        assert(b@.take(i + 1) =~= b@.take(i as int).push(b@[i as int]));
        i = i + 1;
    }
    proof {
        lemma_chars_lt_skip(a@, b@, i as int);
        lemma_chars_lt_skip(b@, a@, i as int);
    }
    if a.len() == b.len() {
        assert(a@ =~= a@.take(i as int));
        assert(b@ =~= b@.take(i as int));
        0
    } else if a.len() < b.len() {
        assert(a@.skip(i as int).len() == 0);
        -1
    } else {
        assert(b@.skip(i as int).len() == 0);
        1
    }
}

/// The tally of a group that has just been created.
pub open spec fn fresh_tally(
    t: GroupedBakeryEventState,
    event: Seq<char>,
    status: Seq<char>,
    suppression_summary: Seq<char>,
) -> bool {
    &&& t.event@ == event
    &&& t.status@ == status
    &&& t.emitted == 0
    &&& t.suppressed == 0
    &&& t.suppression_summary@ == suppression_summary
}

/// How one event changes the keys and tallies of a limiter.
pub open spec fn emit_effect(
    keys: Seq<Seq<char>>,
    tallies: Seq<GroupedBakeryEventState>,
    new_keys: Seq<Seq<char>>,
    new_tallies: Seq<GroupedBakeryEventState>,
    k: Seq<char>,
    event: Seq<char>,
    status: Seq<char>,
    suppression_summary: Seq<char>,
) -> bool {
    match key_position(keys, k) {
        Some(i) => {
            &&& new_keys == keys
            &&& new_tallies == tallies.update(i, tally_step(tallies[i]))
        },
        None => exists|p: int, t: GroupedBakeryEventState|
            {
                &&& 0 <= p <= keys.len()
                &&& fresh_tally(t, event, status, suppression_summary)
                &&& new_keys == keys.insert(p, k)
                &&& new_tallies == tallies.insert(p, tally_step(t))
            },
    }
}

/// Whether one more event of group `k` is logged in detail.
pub open spec fn emit_logs(keys: Seq<Seq<char>>, tallies: Seq<GroupedBakeryEventState>, k: Seq<char>) -> bool {
    match key_position(keys, k) {
        Some(i) => tally_logs(tallies[i]),
        None => true,
    }
}

/// Site hash of an optional event site.
pub open spec fn site_hash_of(site: Option<(i64, Option<String>)>) -> Option<i64> {
    match site {
        Some(s) => Some(s.0),
        None => None,
    }
}

/// Site name of an optional event site.
pub open spec fn site_name_of(site: Option<(i64, Option<String>)>) -> Option<Seq<char>> {
    match site {
        Some(s) => opt_view(s.1),
        None => None,
    }
}

/// `Suppressed <n> additional <summary> this batch.`
pub open spec fn suppression_message(t: GroupedBakeryEventState) -> Seq<char> {
    "Suppressed "@ + dec_seq(t.suppressed as nat) + " additional "@ + t.suppression_summary@
        + " this batch."@
}

/// The summary events a flush logs, in group order: one per group with
/// suppressed events.
pub open spec fn flush_events(tallies: Seq<GroupedBakeryEventState>) -> Seq<
    (Seq<char>, Seq<char>, Seq<char>),
>
    decreases tallies.len(),
{
    if tallies.len() == 0 {
        seq![]
    } else {
        let prev = flush_events(tallies.drop_last());
        let t = tallies.last();
        if t.suppressed > 0 {
            prev.push((t.event@, t.status@, suppression_message(t)))
        } else {
            prev
        }
    }
}

/// The activity log after logging `events` in order (each newest first,
/// at most [`BAKERY_EVENT_LIMIT`] kept).
pub open spec fn activity_after_all(
    old: Seq<BakeryActivityEntry>,
    new: Seq<BakeryActivityEntry>,
    ts: u64,
    events: Seq<(Seq<char>, Seq<char>, Seq<char>)>,
) -> bool {
    let n = events.len();
    &&& new.len() == if old.len() + n > BAKERY_EVENT_LIMIT {
        BAKERY_EVENT_LIMIT as nat
    } else {
        old.len() + n
    }
    &&& forall|i: int|
        0 <= i < new.len() && i < n ==> entry_is(
            #[trigger] new[i],
            ts,
            events[n - 1 - i].0,
            events[n - 1 - i].1,
            None,
            None,
            events[n - 1 - i].2,
        )
    &&& forall|i: int| n <= i < new.len() ==> #[trigger] new[i] == old[i - n]
}

/// One more logged event extends `activity_after_all`.
pub proof fn lemma_activity_after_all_step(
    old: Seq<BakeryActivityEntry>,
    cur: Seq<BakeryActivityEntry>,
    next: Seq<BakeryActivityEntry>,
    ts: u64,
    events: Seq<(Seq<char>, Seq<char>, Seq<char>)>,
    e: (Seq<char>, Seq<char>, Seq<char>),
)
    requires
        activity_after_all(old, cur, ts, events),
        activity_after(cur, next, ts, e.0, e.1, None, None, e.2),
    ensures
        activity_after_all(old, next, ts, events.push(e)),
{
    let n = events.len();
    let all = events.push(e);
    assert forall|i: int| 0 <= i < next.len() && i < n + 1 implies entry_is(
        #[trigger] next[i],
        ts,
        all[n - i].0,
        all[n - i].1,
        None,
        None,
        all[n - i].2,
    ) by {
        if i > 0 {
            assert(next[i] == cur[i - 1]);
            assert(all[n - i] == events[n - 1 - (i - 1)]);
        }
    }
    assert forall|i: int| n + 1 <= i < next.len() implies #[trigger] next[i] == old[i - (n + 1)] by {
        assert(next[i] == cur[i - 1]);
    }
}

impl GroupedBakeryEventLimiter {
    /// The group keys, in order.
    pub closed spec fn key_seq(&self) -> Seq<Seq<char>> {
        views(self.keys@)
    }

    /// The group tallies, parallel to the keys.
    pub closed spec fn tallies(&self) -> Seq<GroupedBakeryEventState> {
        self.states@
    }

    /// Keys are sorted and there is one tally per key.
    pub closed spec fn wf(&self) -> bool {
        &&& keys_sorted(self.key_seq())
        &&& self.keys@.len() == self.states@.len()
    }

    /// A limiter with no groups.
    pub fn new() -> (r: Self)
        ensures
            r.wf(),
            r.key_seq().len() == 0,
            r.tallies().len() == 0,
    {
        let r = GroupedBakeryEventLimiter { keys: Vec::new(), states: Vec::new() };
        assert(r.key_seq() =~= Seq::<Seq<char>>::empty());
        r
    }

    /// Where `k` stands among the sorted keys: its index if present, else the
    /// index at which it would be inserted.
    fn locate(&self, k: &Vec<char>) -> (r: (usize, bool))
        requires
            self.wf(),
        ensures
            r.0 <= self.key_seq().len(),
            r.1 ==> r.0 < self.key_seq().len() && self.key_seq()[r.0 as int] == k@,
            !r.1 ==> forall|j: int| 0 <= j < r.0 ==> chars_lt(#[trigger] self.key_seq()[j], k@),
            !r.1 ==> forall|j: int|
                r.0 <= j < self.key_seq().len() ==> chars_lt(k@, #[trigger] self.key_seq()[j]),
    {
        let mut pos: usize = 0;
        while pos < self.keys.len()
            invariant
                self.wf(),
                pos <= self.keys@.len(),
                forall|j: int| 0 <= j < pos ==> chars_lt(#[trigger] self.key_seq()[j], k@),
            decreases self.keys@.len() - pos,
        {
            let c = compare_chars(&crate::text::chars_of(self.keys[pos].as_str()), k);
            proof {
                assert(self.key_seq()[pos as int] == self.keys@[pos as int]@);
            }
            if c == 0 {
                return (pos, true);
            }
            if c > 0 {
                proof {
                    assert forall|j: int| pos <= j < self.key_seq().len() implies chars_lt(
                        k@,
                        #[trigger] self.key_seq()[j],
                    ) by {
                        if j > pos {
                            assert(chars_lt(self.key_seq()[pos as int], self.key_seq()[j]));
                            lemma_chars_lt_transitive(k@, self.key_seq()[pos as int], self.key_seq()[j]);
                        }
                    }
                }
                return (pos, false);
            }
            pos = pos + 1;
        }
        (pos, false)
    }

    /// Counts one event of group `group_key`. The first
    /// [`BAKERY_GROUPED_EVENT_DETAIL_LIMIT`] events of a group are logged in
    /// full; later ones are only counted. A new group takes its event, status
    /// and suppression summary from this call.
    pub fn emit_with_site_name(
        &mut self,
        telemetry: &mut BakeryTelemetryState,
        now_unix: u64,
        group_key: String,
        event: &str,
        status: &str,
        site: Option<(i64, Option<String>)>,
        summary: String,
        suppression_summary: String,
    )
        requires
            old(self).wf(),
            old(telemetry).wf(),
        ensures
            final(self).wf(),
            final(telemetry).wf(),
            final(telemetry).same_except_activity(old(telemetry)),
            emit_effect(
                old(self).key_seq(),
                old(self).tallies(),
                final(self).key_seq(),
                final(self).tallies(),
                group_key@,
                event@,
                status@,
                suppression_summary@,
            ),
            emit_logs(old(self).key_seq(), old(self).tallies(), group_key@) ==> activity_after(
                old(telemetry).activity@,
                final(telemetry).activity@,
                now_unix,
                event@,
                status@,
                site_hash_of(site),
                site_name_of(site),
                summary@,
            ),
            !emit_logs(old(self).key_seq(), old(self).tallies(), group_key@)
                ==> final(telemetry).activity@ == old(telemetry).activity@,
    {
        let ghost keys0 = self.key_seq();
        let ghost tallies0 = self.tallies();
        let ghost k = group_key@;
        let kc = crate::text::chars_of(group_key.as_str());
        let (pos, found) = self.locate(&kc);
        proof {
            lemma_key_position(keys0, k);
        }
        let ghost mut fresh: GroupedBakeryEventState = arbitrary();
        if !found {
            proof {
                assert forall|j: int| 0 <= j < keys0.len() implies keys0[j] != k by {
                    lemma_chars_lt_trichotomy(k, k);
                    if j < pos {
                        assert(chars_lt(keys0[j], k));
                    } else {
                        assert(chars_lt(k, keys0[j]));
                    }
                }
                assert(key_position(keys0, k) is None);
            }
            let t = GroupedBakeryEventState {
                event: owned(event),
                status: owned(status),
                emitted: 0,
                suppressed: 0,
                suppression_summary,
            };
            proof {
                fresh = t;
            }
            self.keys.insert(pos, group_key);
            self.states.insert(pos, t);
            proof {
                assert(self.key_seq() =~= keys0.insert(pos as int, k));
                assert forall|i: int, j: int|
                    0 <= i < j < self.key_seq().len() implies chars_lt(
                    #[trigger] self.key_seq()[i],
                    #[trigger] self.key_seq()[j],
                ) by {
                    let ks = self.key_seq();
                    if j < pos {
                        assert(ks[i] == keys0[i] && ks[j] == keys0[j]);
                    } else if j == pos {
                        assert(ks[i] == keys0[i]);
                    } else if i == pos {
                        assert(ks[j] == keys0[j - 1]);
                    } else if i < pos {
                        assert(ks[i] == keys0[i] && ks[j] == keys0[j - 1]);
                    } else {
                        assert(ks[i] == keys0[i - 1] && ks[j] == keys0[j - 1]);
                    }
                }
            }
        } else {
            proof {
                assert(key_position(keys0, k) == Some(pos as int));
            }
        }
        let ghost tallies1 = self.tallies();
        let mut t = self.states.remove(pos);
        if t.emitted < BAKERY_GROUPED_EVENT_DETAIL_LIMIT {
            let (site_hash, site_name) = match site {
                Some((h, n)) => (Some(h), n),
                None => (None, None),
            };
            push_bakery_event_with_site_name(
                telemetry,
                now_unix,
                event,
                status,
                site_hash,
                site_name,
                summary,
            );
            t.emitted = t.emitted + 1;
        } else {
            t.suppressed = t.suppressed.saturating_add(1);
        }
        self.states.insert(pos, t);
        proof {
            assert(self.tallies() =~= tallies1.update(pos as int, tally_step(tallies1[pos as int])));
            if !found {
                assert(tallies1 =~= tallies0.insert(pos as int, fresh));
                assert(self.tallies() =~= tallies0.insert(pos as int, tally_step(fresh)));
                assert(fresh_tally(fresh, event@, status@, suppression_summary@));
            }
        }
    }

    /// Logs one summary event per group with suppressed events, in key order:
    /// `Suppressed <n> additional <summary> this batch.`
    pub fn flush(self, telemetry: &mut BakeryTelemetryState, now_unix: u64)
        requires
            self.wf(),
            old(telemetry).wf(),
        ensures
            final(telemetry).wf(),
            final(telemetry).same_except_activity(old(telemetry)),
            activity_after_all(
                old(telemetry).activity@,
                final(telemetry).activity@,
                now_unix,
                flush_events(self.tallies()),
            ),
    {
        let ghost before = telemetry.activity@;
        let ghost tel0 = *telemetry;
        let ghost tallies = self.tallies();
        assert(tallies.take(0) =~= Seq::<GroupedBakeryEventState>::empty());
        let mut i: usize = 0;
        while i < self.states.len()
            invariant
                tallies == self.states@,
                i <= tallies.len(),
                telemetry.wf(),
                telemetry.same_except_activity(&tel0),
                before == tel0.activity@,
                activity_after_all(before, telemetry.activity@, now_unix, flush_events(tallies.take(i as int))),
            decreases tallies.len() - i,
        {
            let t = &self.states[i];
            proof {
                assert(tallies.take(i + 1).drop_last() =~= tallies.take(i as int));
                assert(tallies.take(i + 1).last() == tallies[i as int]);
            }
            if t.suppressed > 0 {
                let mut msg = owned("Suppressed ");
                let n = dec_string(t.suppressed as u64);
                append_str(&mut msg, n.as_str());
                append_str(&mut msg, " additional ");
                append_str(&mut msg, t.suppression_summary.as_str());
                append_str(&mut msg, " this batch.");
                let ghost cur = telemetry.activity@;
                push_bakery_event(telemetry, now_unix, t.event.as_str(), t.status.as_str(), msg);
                proof {
                    lemma_activity_after_all_step(
                        before,
                        cur,
                        telemetry.activity@,
                        now_unix,
                        flush_events(tallies.take(i as int)),
                        (t.event@, t.status@, suppression_message(*t)),
                    );
                }
            }
            i = i + 1;
        }
        assert(tallies.take(tallies.len() as int) =~= tallies);
    }
}

/// One grouped emission: the limiter counts the event of group `key` and,
/// when the group still logs in detail, the activity log gains the entry;
/// nothing else of the telemetry changes.
pub open spec fn grouped_emitted(
    l0: GroupedBakeryEventLimiter,
    l1: GroupedBakeryEventLimiter,
    t0: BakeryTelemetryState,
    t1: BakeryTelemetryState,
    now_unix: u64,
    key: Seq<char>,
    event: Seq<char>,
    status: Seq<char>,
    site: Option<(i64, Option<String>)>,
    summary: Seq<char>,
    suppression_summary: Seq<char>,
) -> bool {
    &&& l1.wf()
    &&& t1.wf()
    &&& t1.same_except_activity(&t0)
    &&& emit_effect(l0.key_seq(), l0.tallies(), l1.key_seq(), l1.tallies(), key, event, status, suppression_summary)
    &&& emit_logs(l0.key_seq(), l0.tallies(), key) ==> activity_after(
        t0.activity@,
        t1.activity@,
        now_unix,
        event,
        status,
        site_hash_of(site),
        site_name_of(site),
        summary,
    )
    &&& !emit_logs(l0.key_seq(), l0.tallies(), key) ==> t1.activity@ == t0.activity@
}

} // verus!
