//! The root multi-queue (`mq`) setup: clearing the old roots and building,
//! per CPU queue and direction, an HTB root, its top class, a default class
//! and their SQM qdiscs.
use vstd::prelude::*;
use crate::config::BakeryConfig;
use crate::text::{append_str, hex_seq, hex_string, owned};

verus! {

/// One direction's rates, already written for `tc` (the caller formats the
/// configured bandwidths).
#[derive(Debug)]
pub struct MqDirectionRates {
    /// Rate and ceiling of each queue's top class (the direction's capacity).
    pub rate: String,
    /// Guaranteed rate of the default class (a quarter of capacity less one).
    pub default_rate: String,
    /// Ceiling of the default class (capacity less one).
    pub default_ceil: String,
    /// HTB quantum for the direction's classes.
    pub quantum: String,
}

/// `0x<n>` in lower-case hexadecimal.
pub open spec fn queue_handle(n: nat) -> Seq<char> {
    "0x"@ + hex_seq(n)
}

/// `qdisc del dev <dev> root`
pub open spec fn root_del_argv(dev: Seq<char>) -> Seq<Seq<char>> {
    seq!["qdisc"@, "del"@, "dev"@, dev, "root"@]
}

/// `qdisc replace dev <dev> root handle 7FFF: mq`
pub open spec fn mq_root_argv(dev: Seq<char>) -> Seq<Seq<char>> {
    seq!["qdisc"@, "replace"@, "dev"@, dev, "root"@, "handle"@, "7FFF:"@, "mq"@]
}

/// The five commands of queue `n` on `dev`: its HTB root under the `mq`, the
/// top class `n:1` at full rate, its SQM qdisc, the low-priority default
/// class `n:2`, and that class's SQM qdisc.
pub open spec fn mq_queue_argvs(
    dev: Seq<char>,
    n: nat,
    sqm: Seq<Seq<char>>,
    rates: MqDirectionRates,
) -> Seq<Seq<Seq<char>>> {
    let h = queue_handle(n);
    seq![
        seq![
            "qdisc"@,
            "add"@,
            "dev"@,
            dev,
            "parent"@,
            "7FFF:"@ + h,
            "handle"@,
            h + ":"@,
            "htb"@,
            "default"@,
            "2"@,
        ],
        seq![
            "class"@,
            "add"@,
            "dev"@,
            dev,
            "parent"@,
            h + ":"@,
            "classid"@,
            h + ":1"@,
            "htb"@,
            "rate"@,
            rates.rate@,
            "ceil"@,
            rates.rate@,
            "quantum"@,
            rates.quantum@,
        ],
        seq!["qdisc"@, "add"@, "dev"@, dev, "parent"@, h + ":1"@] + sqm,
        seq![
            "class"@,
            "add"@,
            "dev"@,
            dev,
            "parent"@,
            h + ":1"@,
            "classid"@,
            h + ":2"@,
            "htb"@,
            "rate"@,
            rates.default_rate@,
            "ceil"@,
            rates.default_ceil@,
            "prio"@,
            "5"@,
            "quantum"@,
            rates.quantum@,
        ],
        seq!["qdisc"@, "add"@, "dev"@, dev, "parent"@, h + ":2"@] + sqm,
    ]
}

/// The commands of `count` queues on `dev`, numbered from `first`.
pub open spec fn mq_queues_argvs(
    dev: Seq<char>,
    first: nat,
    count: nat,
    sqm: Seq<Seq<char>>,
    rates: MqDirectionRates,
) -> Seq<Seq<Seq<char>>>
    decreases count,
{
    if count == 0 {
        Seq::empty()
    } else {
        mq_queues_argvs(dev, first, (count - 1) as nat, sqm, rates) + mq_queue_argvs(
            dev,
            (first + count - 1) as nat,
            sqm,
            rates,
        )
    }
}

/// The full `mq` setup: the old roots are deleted (only the ISP-facing one
/// on a stick), then the ISP-facing `mq` with queues `1..=queues`, then the
/// Internet-facing `mq` (not on a stick) with queues numbered from
/// `stick_offset + 1`.
pub open spec fn mq_setup_argvs(
    cfg: BakeryConfig,
    queues: nat,
    stick_offset: nat,
    sqm: Seq<Seq<char>>,
    down: MqDirectionRates,
    up: MqDirectionRates,
) -> Seq<Seq<Seq<char>>> {
    let isp = cfg.isp_interface@;
    let inet = cfg.internet_interface@;
    let clear = if cfg.on_a_stick {
        seq![root_del_argv(isp)]
    } else {
        seq![root_del_argv(isp), root_del_argv(inet)]
    };
    let up_root = if cfg.on_a_stick {
        Seq::<Seq<Seq<char>>>::empty()
    } else {
        seq![mq_root_argv(inet)]
    };
    clear + seq![mq_root_argv(isp)] + mq_queues_argvs(isp, 1, queues, sqm, down) + up_root
        + mq_queues_argvs(inet, stick_offset + 1, queues, sqm, up)
}

/// `a` followed by `b`.
fn concat(a: &str, b: &str) -> (r: String)
    ensures
        r@ == a@ + b@,
{
    let mut s = owned(a);
    append_str(&mut s, b);
    s
}

/// `head` followed by the strings of `tail`.
fn with_tail(head: Vec<String>, tail: &Vec<String>) -> (r: Vec<String>)
    ensures
        r.deep_view() == head.deep_view() + tail.deep_view(),
{
    let mut v = head;
    let ghost h = v.deep_view();
    let mut i: usize = 0;
    while i < tail.len()
        invariant
            i <= tail@.len(),
            v.deep_view() == h + tail.deep_view().take(i as int),
        decreases tail@.len() - i,
    {
        let ghost old_v = v.deep_view();
        v.push(owned(tail[i].as_str()));
        assert(v.deep_view() =~= old_v.push(tail.deep_view()[i as int]));
        assert(tail.deep_view().take(i + 1) =~= tail.deep_view().take(i as int).push(tail.deep_view()[i as int]));
        assert(v.deep_view() =~= h + tail.deep_view().take(i + 1));
        i = i + 1;
    }
    assert(tail.deep_view().take(tail@.len() as int) =~= tail.deep_view());
    v
}

fn root_del(dev: &String) -> (r: Vec<String>)
    ensures
        r.deep_view() == root_del_argv(dev@),
{
    let mut v: Vec<String> = Vec::new();
    v.push(owned("qdisc"));
    v.push(owned("del"));
    v.push(owned("dev"));
    v.push(owned(dev.as_str()));
    v.push(owned("root"));
    assert(v.deep_view() =~= root_del_argv(dev@));
    v
}

fn mq_root(dev: &String) -> (r: Vec<String>)
    ensures
        r.deep_view() == mq_root_argv(dev@),
{
    let mut v: Vec<String> = Vec::new();
    v.push(owned("qdisc"));
    v.push(owned("replace"));
    v.push(owned("dev"));
    v.push(owned(dev.as_str()));
    v.push(owned("root"));
    v.push(owned("handle"));
    v.push(owned("7FFF:"));
    v.push(owned("mq"));
    assert(v.deep_view() =~= mq_root_argv(dev@));
    v
}

/// Appends the five commands of queue `n` on `dev`.
fn push_queue(
    out: &mut Vec<Vec<String>>,
    dev: &String,
    n: u64,
    sqm: &Vec<String>,
    rates: &MqDirectionRates,
)
    ensures
        final(out).deep_view() == old(out).deep_view() + mq_queue_argvs(dev@, n as nat, sqm.deep_view(), *rates),
{
    let ghost before = out.deep_view();
    let h = concat("0x", hex_string(n).as_str());
    let d = dev.as_str();

    let mut root: Vec<String> = Vec::new();
    root.push(owned("qdisc"));
    root.push(owned("add"));
    root.push(owned("dev"));
    root.push(owned(d));
    root.push(owned("parent"));
    root.push(concat("7FFF:", h.as_str()));
    root.push(owned("handle"));
    root.push(concat(h.as_str(), ":"));
    root.push(owned("htb"));
    root.push(owned("default"));
    root.push(owned("2"));

    let mut top: Vec<String> = Vec::new();
    top.push(owned("class"));
    top.push(owned("add"));
    top.push(owned("dev"));
    top.push(owned(d));
    top.push(owned("parent"));
    top.push(concat(h.as_str(), ":"));
    top.push(owned("classid"));
    top.push(concat(h.as_str(), ":1"));
    top.push(owned("htb"));
    top.push(owned("rate"));
    top.push(owned(rates.rate.as_str()));
    top.push(owned("ceil"));
    top.push(owned(rates.rate.as_str()));
    top.push(owned("quantum"));
    top.push(owned(rates.quantum.as_str()));

    let mut top_sqm: Vec<String> = Vec::new();
    top_sqm.push(owned("qdisc"));
    top_sqm.push(owned("add"));
    top_sqm.push(owned("dev"));
    top_sqm.push(owned(d));
    top_sqm.push(owned("parent"));
    top_sqm.push(concat(h.as_str(), ":1"));
    let top_sqm = with_tail(top_sqm, sqm);

    let mut dflt: Vec<String> = Vec::new();
    dflt.push(owned("class"));
    dflt.push(owned("add"));
    dflt.push(owned("dev"));
    dflt.push(owned(d));
    dflt.push(owned("parent"));
    dflt.push(concat(h.as_str(), ":1"));
    dflt.push(owned("classid"));
    dflt.push(concat(h.as_str(), ":2"));
    dflt.push(owned("htb"));
    dflt.push(owned("rate"));
    dflt.push(owned(rates.default_rate.as_str()));
    dflt.push(owned("ceil"));
    dflt.push(owned(rates.default_ceil.as_str()));
    dflt.push(owned("prio"));
    dflt.push(owned("5"));
    dflt.push(owned("quantum"));
    dflt.push(owned(rates.quantum.as_str()));

    let mut dflt_sqm: Vec<String> = Vec::new();
    dflt_sqm.push(owned("qdisc"));
    dflt_sqm.push(owned("add"));
    dflt_sqm.push(owned("dev"));
    dflt_sqm.push(owned(d));
    dflt_sqm.push(owned("parent"));
    dflt_sqm.push(concat(h.as_str(), ":2"));
    let dflt_sqm = with_tail(dflt_sqm, sqm);

    let ghost block = mq_queue_argvs(dev@, n as nat, sqm.deep_view(), *rates);
    assert(root.deep_view() =~= block[0]);
    assert(top.deep_view() =~= block[1]);
    assert(top_sqm.deep_view() =~= block[2]);
    assert(dflt.deep_view() =~= block[3]);
    assert(dflt_sqm.deep_view() =~= block[4]);
    out.push(root);
    out.push(top);
    out.push(top_sqm);
    out.push(dflt);
    out.push(dflt_sqm);
    assert(out.deep_view() =~= before + block);
}

/// Appends the commands of `count` queues on `dev`, numbered from `first`.
fn push_queues(
    out: &mut Vec<Vec<String>>,
    dev: &String,
    first: u64,
    count: u64,
    sqm: &Vec<String>,
    rates: &MqDirectionRates,
)
    requires
        first + count <= u64::MAX,
    ensures
        final(out).deep_view() == old(out).deep_view() + mq_queues_argvs(
            dev@,
            first as nat,
            count as nat,
            sqm.deep_view(),
            *rates,
        ),
{
    let ghost before = out.deep_view();
    let mut i: u64 = 0;
    assert(before + mq_queues_argvs(dev@, first as nat, 0, sqm.deep_view(), *rates) =~= before);
    while i < count
        invariant
            i <= count,
            first + count <= u64::MAX,
            out.deep_view() == before + mq_queues_argvs(dev@, first as nat, i as nat, sqm.deep_view(), *rates),
        decreases count - i,
    {
        let ghost mid = out.deep_view();
        push_queue(out, dev, first + i, sqm, rates);
        assert(mq_queues_argvs(dev@, first as nat, (i + 1) as nat, sqm.deep_view(), *rates)
            == mq_queues_argvs(dev@, first as nat, i as nat, sqm.deep_view(), *rates) + mq_queue_argvs(
            dev@,
            (first + i) as nat,
            sqm.deep_view(),
            *rates,
        ));
        assert(out.deep_view() =~= before + mq_queues_argvs(
            dev@,
            first as nat,
            (i + 1) as nat,
            sqm.deep_view(),
            *rates,
        ));
        i = i + 1;
    }
}

/// The `tc` commands that replace the roots of both interfaces with an `mq`
/// of `queues_available` queues (see [`mq_setup_argvs`]); the up-direction
/// queues are numbered after `stick_offset`. `sqm` is the SQM qdisc spec
/// attached under each class.
pub fn mq_setup(
    config: &BakeryConfig,
    queues_available: u64,
    stick_offset: u64,
    sqm: &Vec<String>,
    down: &MqDirectionRates,
    up: &MqDirectionRates,
) -> (r: Option<Vec<Vec<String>>>)
    requires
        queues_available + stick_offset < u64::MAX,
    ensures
        r matches Some(v) && v.deep_view() == mq_setup_argvs(
            *config,
            queues_available as nat,
            stick_offset as nat,
            sqm.deep_view(),
            *down,
            *up,
        ),
{
    let mut result: Vec<Vec<String>> = Vec::new();
    result.push(root_del(&config.isp_interface));
    if !config.on_a_stick {
        result.push(root_del(&config.internet_interface));
    }
    result.push(mq_root(&config.isp_interface));
    push_queues(&mut result, &config.isp_interface, 1, queues_available, sqm, down);
    let ghost after_down = result.deep_view();
    if !config.on_a_stick {
        result.push(mq_root(&config.internet_interface));
    }
    let ghost after_root = result.deep_view();
    push_queues(&mut result, &config.internet_interface, stick_offset + 1, queues_available, sqm, up);
    proof {
        let isp = config.isp_interface@;
        let inet = config.internet_interface@;
        let clear = if config.on_a_stick {
            seq![root_del_argv(isp)]
        } else {
            seq![root_del_argv(isp), root_del_argv(inet)]
        };
        let up_root = if config.on_a_stick {
            Seq::<Seq<Seq<char>>>::empty()
        } else {
            seq![mq_root_argv(inet)]
        };
        let downs = mq_queues_argvs(isp, 1, queues_available as nat, sqm.deep_view(), *down);
        assert(after_down =~= clear + seq![mq_root_argv(isp)] + downs);
        assert(after_root =~= clear + seq![mq_root_argv(isp)] + downs + up_root);
    }
    Some(result)
}

} // verus!
