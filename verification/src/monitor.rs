//! Snapshot-diffing monitors for corridors and anchors.
//!
//! A monitor owns a map from entity identifier to the last observed metric
//! snapshot. Each observation compares the new snapshot against the stored
//! one — when there is one — raises the threshold alerts of
//! [`crate::alerts`], and then unconditionally overwrites the stored
//! snapshot, so every cycle compares only against the immediately
//! preceding cycle. The very first observation of an entity has no
//! baseline and never raises an alert.

use vstd::prelude::*;

use crate::alerts::{
    make_corridor_alerts, spec_corridor_alert_count, spec_corridor_alerts, spec_latency_increase,
    spec_success_drop, Alert, AlertType,
};
use crate::stellar::Payment;
use crate::strutil::{spec_dec, u64_to_string};

verus! {

/// The last observed metrics of one corridor: success rate in percent,
/// latency in milliseconds, and liquidity in the caller's fixed-point
/// unit.
#[derive(Debug, Clone, Copy, PartialEq, Eq, Structural)]
pub struct CorridorState {
    pub success_rate: u64,
    pub latency: u64,
    pub liquidity: u64,
}

/// The last observed metrics of one anchor.
#[derive(Debug, Clone, Copy, PartialEq, Eq, Structural)]
pub struct AnchorMetrics {
    pub transaction_count: u64,
    pub success_rate: u64,
    pub avg_latency: u64,
}

/// First-match lookup in an association list from names to snapshots.
pub open spec fn spec_find<V>(entries: Seq<(String, V)>, key: Seq<char>) -> Option<V>
    decreases entries.len(),
{
    if entries.len() == 0 {
        Option::None
    } else if entries[0].0@ == key {
        Option::Some(entries[0].1)
    } else {
        spec_find(entries.drop_first(), key)
    }
}

/// The lookup misses exactly when no entry carries the key.
pub proof fn lemma_find_none_iff<V>(entries: Seq<(String, V)>, key: Seq<char>)
    ensures
        (spec_find(entries, key) is None) <==> (forall|j: int|
            0 <= j < entries.len() ==> entries[j].0@ != key),
    decreases entries.len(),
{
    if entries.len() > 0 {
        let rest = entries.drop_first();
        lemma_find_none_iff(rest, key);
        if entries[0].0@ == key {
        } else {
            if forall|j: int| 0 <= j < rest.len() ==> (#[trigger] rest[j].0@) != key {
                assert forall|j: int| 0 <= j < entries.len() implies entries[j].0@ != key by {
                    if j > 0 {
                        assert(rest[j - 1] == entries[j]);
                    }
                }
            } else {
                let j = choose|j: int| 0 <= j < rest.len() && (#[trigger] rest[j].0@) == key;
                assert(entries[j + 1] == rest[j]);
            }
        }
    }
}

/// When every entry before position `i` misses the key and entry `i` hits
/// it, the lookup returns entry `i`'s value.
pub proof fn lemma_find_first<V>(entries: Seq<(String, V)>, key: Seq<char>, i: int)
    requires
        0 <= i < entries.len(),
        entries[i].0@ == key,
        forall|j: int| 0 <= j < i ==> entries[j].0@ != key,
    ensures
        spec_find(entries, key) == Option::Some(entries[i].1),
    decreases i,
{
    if i > 0 {
        lemma_find_first(entries.drop_first(), key, i - 1);
    }
}

/// Lookups agree on two lists that hit the key in the same positions with
/// the same values.
proof fn lemma_find_agrees<V>(s1: Seq<(String, V)>, s2: Seq<(String, V)>, key: Seq<char>)
    requires
        s1.len() == s2.len(),
        forall|j: int|
            0 <= j < s1.len() ==> ((#[trigger] s1[j].0@ == key) <==> s2[j].0@ == key),
        forall|j: int| 0 <= j < s1.len() && (#[trigger] s1[j].0@) == key ==> s1[j].1 == s2[j].1,
    ensures
        spec_find(s1, key) == spec_find(s2, key),
    decreases s1.len(),
{
    if s1.len() > 0 {
        if s1[0].0@ == key {
        } else {
            lemma_find_agrees(s1.drop_first(), s2.drop_first(), key);
        }
    }
}

/// A lookup on a list with one more entry at the end: the old entries win,
/// and the new entry answers only what they missed.
pub proof fn lemma_find_push<V>(entries: Seq<(String, V)>, entry: (String, V), key: Seq<char>)
    ensures
        spec_find(entries.push(entry), key) == if spec_find(entries, key) is Some {
            spec_find(entries, key)
        } else if entry.0@ == key {
            Option::Some(entry.1)
        } else {
            Option::<V>::None
        },
    decreases entries.len(),
{
    let pushed = entries.push(entry);
    assert(pushed.len() == entries.len() + 1);
    if entries.len() == 0 {
        assert(pushed[0] == entry);
        if entry.0@ == key {
            assert(spec_find(pushed, key) == Option::Some(entry.1));
        } else {
            assert(pushed.drop_first() =~= Seq::<(String, V)>::empty());
            assert(spec_find(pushed, key) == spec_find(pushed.drop_first(), key));
            assert(spec_find(pushed, key) is None);
        }
    } else {
        assert(pushed[0] == entries[0]);
        if entries[0].0@ == key {
            assert(spec_find(pushed, key) == Option::Some(entries[0].1));
            assert(spec_find(entries, key) == Option::Some(entries[0].1));
        } else {
            lemma_find_push(entries.drop_first(), entry, key);
            assert(pushed.drop_first() =~= entries.drop_first().push(entry));
            assert(spec_find(pushed, key) == spec_find(entries.drop_first().push(entry), key));
            assert(spec_find(entries, key) == spec_find(entries.drop_first(), key));
        }
    }
}

/// The corridor monitor's snapshot store: one entry per corridor, keyed by
/// the corridor identifier, each key held at most once.
pub struct CorridorMonitor {
    previous_state: Vec<(String, CorridorState)>,
}

impl CorridorMonitor {
    /// The stored snapshot of the given corridor, if one was ever
    /// observed.
    pub closed spec fn spec_snapshot(&self, key: Seq<char>) -> Option<CorridorState> {
        spec_find(self.previous_state@, key)
    }

    /// Each corridor identifier is held at most once.
    pub closed spec fn wf(&self) -> bool {
        forall|i: int, j: int|
            0 <= i < j < self.previous_state@.len() ==> self.previous_state@[i].0@
                != self.previous_state@[j].0@
    }

    /// A fresh monitor has no baseline for any corridor.
    pub fn new() -> (m: Self)
        ensures
            m.wf(),
            forall|k: Seq<char>| m.spec_snapshot(k) is None,
    {
        CorridorMonitor { previous_state: Vec::new() }
    }

    /// One observation of one corridor: raises the threshold alerts
    /// against the stored snapshot when one exists — never on the first
    /// observation — and then unconditionally overwrites the stored
    /// snapshot with the new values.
    #[verifier::loop_isolation(false)]
    pub fn observe(
        &mut self,
        corridor_id: &String,
        snapshot: CorridorState,
        timestamp: &str,
    ) -> (alerts: Vec<Alert>)
        requires
            old(self).wf(),
        ensures
            final(self).wf(),
            final(self).spec_snapshot(corridor_id@) == Option::Some(snapshot),
            forall|k: Seq<char>|
                k != corridor_id@ ==> final(self).spec_snapshot(k) == old(self).spec_snapshot(k),
            match old(self).spec_snapshot(corridor_id@) {
                Option::None => alerts@.len() == 0,
                Option::Some(prev) => spec_corridor_alerts(
                    alerts@,
                    corridor_id@,
                    prev.success_rate,
                    snapshot.success_rate,
                    prev.latency,
                    snapshot.latency,
                    prev.liquidity,
                    snapshot.liquidity,
                    timestamp@,
                ),
            },
    {
        let ghost entries0 = self.previous_state@;
        let n = self.previous_state.len();
        let mut i: usize = 0;
        while i < n
            invariant
                self.previous_state@ == entries0,
                n == self.previous_state@.len(),
                i <= n,
                forall|j: int| 0 <= j < i ==> self.previous_state@[j].0@ != corridor_id@,
            decreases n - i,
        {
            if self.previous_state[i].0 == *corridor_id {
                let prev = self.previous_state[i].1;
                proof {
                    lemma_find_first(entries0, corridor_id@, i as int);
                }
                let alerts = make_corridor_alerts(
                    corridor_id.as_str(),
                    prev.success_rate,
                    snapshot.success_rate,
                    prev.latency,
                    snapshot.latency,
                    prev.liquidity,
                    snapshot.liquidity,
                    timestamp,
                );
                let key_copy = corridor_id.clone();
                self.previous_state[i] = (key_copy, snapshot);
                proof {
                    let entries1 = self.previous_state@;
                    assert(entries1[i as int].1 == snapshot);
                    assert(entries1[i as int].0@ == corridor_id@);
                    assert(entries1.len() == entries0.len());
                    assert(forall|j: int|
                        0 <= j < entries1.len() && j != i ==> entries1[j] == entries0[j]);
                    lemma_find_first(entries1, corridor_id@, i as int);
                    assert forall|k: Seq<char>|
                        k != corridor_id@ implies spec_find(entries1, k) == spec_find(
                        entries0,
                        k,
                    ) by {
                        lemma_find_agrees(entries1, entries0, k);
                    }
                }
                return alerts;
            }
            i = i + 1;
        }
        proof {
            lemma_find_none_iff(entries0, corridor_id@);
        }
        let key_copy = corridor_id.clone();
        self.previous_state.push((key_copy, snapshot));
        proof {
            let entries1 = self.previous_state@;
            let e = entries1.last();
            assert(entries1 == entries0.push(e));
            assert(e.1 == snapshot);
            assert(e.0@ == corridor_id@);
            lemma_find_first(entries1, corridor_id@, entries0.len() as int);
            assert forall|k: Seq<char>|
                k != corridor_id@ implies spec_find(entries1, k) == spec_find(entries0, k) by {
                lemma_find_push(entries0, e, k);
                lemma_find_none_iff(entries0, k);
            }
        }
        Vec::new()
    }
}

/// The message text of an anchor success-rate alert.
pub open spec fn spec_anchor_success_msg(id: Seq<char>, o: u64, n: u64) -> Seq<char> {
    "Anchor '"@ + id + "' success rate dropped from "@ + spec_dec(o as nat) + "% to "@ + spec_dec(
        n as nat,
    ) + "%"@
}

/// The message text of an anchor latency alert.
pub open spec fn spec_anchor_latency_msg(id: Seq<char>, o: u64, n: u64) -> Seq<char> {
    "Anchor '"@ + id + "' latency increased from "@ + spec_dec(o as nat) + "ms to "@ + spec_dec(
        n as nat,
    ) + "ms"@
}

/// One anchor metric alert with the given message and values.
pub open spec fn spec_is_anchor_alert(
    a: Alert,
    id: Seq<char>,
    msg: Seq<char>,
    old_value: u64,
    new_value: u64,
    ts: Seq<char>,
) -> bool {
    &&& a.alert_type == AlertType::AnchorMetricChange
    &&& a.corridor_id is None
    &&& a.anchor_id matches Option::Some(x) && x@ == id
    &&& a.message@ == msg
    &&& a.old_value == old_value
    &&& a.new_value == new_value
    &&& a.timestamp@ == ts
}

/// Exactly which alerts one anchor comparison yields, in order: the
/// success-rate drop when it fired, then the latency increase — and
/// nothing else. The liquidity check does not apply to anchors.
pub open spec fn spec_anchor_alerts(
    alerts: Seq<Alert>,
    id: Seq<char>,
    old: AnchorMetrics,
    new: AnchorMetrics,
    ts: Seq<char>,
) -> bool {
    let drop_fired = spec_success_drop(old.success_rate, new.success_rate);
    let lat_fired = spec_latency_increase(old.avg_latency, new.avg_latency);
    &&& alerts.len() == (if drop_fired { 1int } else { 0int }) + (if lat_fired { 1int } else { 0int })
    &&& drop_fired ==> spec_is_anchor_alert(
        alerts[0],
        id,
        spec_anchor_success_msg(id, old.success_rate, new.success_rate),
        old.success_rate,
        new.success_rate,
        ts,
    )
    &&& lat_fired ==> spec_is_anchor_alert(
        alerts[if drop_fired { 1int } else { 0int }],
        id,
        spec_anchor_latency_msg(id, old.avg_latency, new.avg_latency),
        old.avg_latency,
        new.avg_latency,
        ts,
    )
}

fn anchor_success_msg(id: &str, o: u64, n: u64) -> (r: String)
    ensures
        r@ == spec_anchor_success_msg(id@, o, n),
{
    let mut m = "Anchor '".to_owned();
    m.append(id);
    m.append("' success rate dropped from ");
    m.append(u64_to_string(o).as_str());
    m.append("% to ");
    m.append(u64_to_string(n).as_str());
    m.append("%");
    m
}

fn anchor_latency_msg(id: &str, o: u64, n: u64) -> (r: String)
    ensures
        r@ == spec_anchor_latency_msg(id@, o, n),
{
    let mut m = "Anchor '".to_owned();
    m.append(id);
    m.append("' latency increased from ");
    m.append(u64_to_string(o).as_str());
    m.append("ms to ");
    m.append(u64_to_string(n).as_str());
    m.append("ms");
    m
}

/// Builds the alerts one anchor comparison yields, exactly as
/// [`spec_anchor_alerts`] describes.
pub fn make_anchor_alerts(
    anchor_id: &str,
    old: &AnchorMetrics,
    new: &AnchorMetrics,
    timestamp: &str,
) -> (r: Vec<Alert>)
    ensures
        spec_anchor_alerts(r@, anchor_id@, *old, *new, timestamp@),
{
    let mut r: Vec<Alert> = Vec::new();
    if new.success_rate < old.success_rate && old.success_rate - new.success_rate > 10 {
        r.push(Alert {
            alert_type: AlertType::AnchorMetricChange,
            corridor_id: Option::None,
            anchor_id: Option::Some(anchor_id.to_owned()),
            message: anchor_success_msg(anchor_id, old.success_rate, new.success_rate),
            old_value: old.success_rate,
            new_value: new.success_rate,
            timestamp: timestamp.to_owned(),
        });
    }
    if (new.avg_latency as u128) * 2 > (old.avg_latency as u128) * 3 {
        r.push(Alert {
            alert_type: AlertType::AnchorMetricChange,
            corridor_id: Option::None,
            anchor_id: Option::Some(anchor_id.to_owned()),
            message: anchor_latency_msg(anchor_id, old.avg_latency, new.avg_latency),
            old_value: old.avg_latency,
            new_value: new.avg_latency,
            timestamp: timestamp.to_owned(),
        });
    }
    r
}

/// The anchor monitor's snapshot store: one entry per anchor, keyed by the
/// anchor identifier, each key held at most once.
pub struct AnchorMonitor {
    last_metrics: Vec<(String, AnchorMetrics)>,
}

impl AnchorMonitor {
    /// The stored metrics of the given anchor, if it was ever observed.
    pub closed spec fn spec_metrics(&self, key: Seq<char>) -> Option<AnchorMetrics> {
        spec_find(self.last_metrics@, key)
    }

    /// Each anchor identifier is held at most once.
    pub closed spec fn wf(&self) -> bool {
        forall|i: int, j: int|
            0 <= i < j < self.last_metrics@.len() ==> self.last_metrics@[i].0@
                != self.last_metrics@[j].0@
    }

    /// A fresh monitor has no baseline for any anchor.
    pub fn new() -> (m: Self)
        ensures
            m.wf(),
            forall|k: Seq<char>| m.spec_metrics(k) is None,
    {
        AnchorMonitor { last_metrics: Vec::new() }
    }

    /// One observation of one anchor: raises the anchor threshold alerts
    /// against the stored metrics when they exist — never on the first
    /// observation — and then unconditionally overwrites the stored
    /// metrics.
    #[verifier::loop_isolation(false)]
    pub fn observe(
        &mut self,
        anchor_id: &String,
        metrics: AnchorMetrics,
        timestamp: &str,
    ) -> (alerts: Vec<Alert>)
        requires
            old(self).wf(),
        ensures
            final(self).wf(),
            final(self).spec_metrics(anchor_id@) == Option::Some(metrics),
            forall|k: Seq<char>|
                k != anchor_id@ ==> final(self).spec_metrics(k) == old(self).spec_metrics(k),
            match old(self).spec_metrics(anchor_id@) {
                Option::None => alerts@.len() == 0,
                Option::Some(prev) => spec_anchor_alerts(
                    alerts@,
                    anchor_id@,
                    prev,
                    metrics,
                    timestamp@,
                ),
            },
    {
        let ghost entries0 = self.last_metrics@;
        let n = self.last_metrics.len();
        let mut i: usize = 0;
        while i < n
            invariant
                self.last_metrics@ == entries0,
                n == self.last_metrics@.len(),
                i <= n,
                forall|j: int| 0 <= j < i ==> self.last_metrics@[j].0@ != anchor_id@,
            decreases n - i,
        {
            if self.last_metrics[i].0 == *anchor_id {
                let prev = self.last_metrics[i].1;
                proof {
                    lemma_find_first(entries0, anchor_id@, i as int);
                }
                let alerts = make_anchor_alerts(anchor_id.as_str(), &prev, &metrics, timestamp);
                let key_copy = anchor_id.clone();
                self.last_metrics[i] = (key_copy, metrics);
                proof {
                    let entries1 = self.last_metrics@;
                    assert(entries1[i as int].1 == metrics);
                    assert(entries1[i as int].0@ == anchor_id@);
                    assert(entries1.len() == entries0.len());
                    assert(forall|j: int|
                        0 <= j < entries1.len() && j != i ==> entries1[j] == entries0[j]);
                    lemma_find_first(entries1, anchor_id@, i as int);
                    assert forall|k: Seq<char>|
                        k != anchor_id@ implies spec_find(entries1, k) == spec_find(
                        entries0,
                        k,
                    ) by {
                        lemma_find_agrees(entries1, entries0, k);
                    }
                }
                return alerts;
            }
            i = i + 1;
        }
        proof {
            lemma_find_none_iff(entries0, anchor_id@);
        }
        let key_copy = anchor_id.clone();
        self.last_metrics.push((key_copy, metrics));
        proof {
            let entries1 = self.last_metrics@;
            let e = entries1.last();
            assert(entries1 == entries0.push(e));
            assert(e.1 == metrics);
            assert(e.0@ == anchor_id@);
            lemma_find_first(entries1, anchor_id@, entries0.len() as int);
            assert forall|k: Seq<char>|
                k != anchor_id@ implies spec_find(entries1, k) == spec_find(entries0, k) by {
                lemma_find_push(entries0, e, k);
                lemma_find_none_iff(entries0, k);
            }
        }
        Vec::new()
    }
}

// ============================================================================
// Amount parsing
// ============================================================================

/// A decimal digit.
pub open spec fn spec_digit(c: char) -> bool {
    '0' <= c && c <= '9'
}

/// The numeric value of a decimal digit.
pub open spec fn spec_digit_val(c: char) -> int {
    c as int - '0' as int
}

/// The value of a digit string read in base ten.
pub open spec fn spec_digits_val(s: Seq<char>) -> int
    decreases s.len(),
{
    if s.len() == 0 {
        0
    } else {
        spec_digits_val(s.drop_last()) * 10 + spec_digit_val(s.last())
    }
}

/// Every character is a decimal digit.
pub open spec fn spec_all_digits(s: Seq<char>) -> bool {
    forall|i: int| 0 <= i < s.len() ==> spec_digit(#[trigger] s[i])
}

proof fn lemma_digits_val_nonneg(s: Seq<char>)
    requires
        spec_all_digits(s),
    ensures
        spec_digits_val(s) >= 0,
    decreases s.len(),
{
    if s.len() > 0 {
        assert(spec_all_digits(s.drop_last()));
        lemma_digits_val_nonneg(s.drop_last());
    }
}

/// The position of the first dot, or the length when there is none.
pub open spec fn spec_dot_index(s: Seq<char>) -> int
    decreases s.len(),
{
    if s.len() == 0 {
        0
    } else if s[0] == '.' {
        0
    } else {
        1 + spec_dot_index(s.drop_first())
    }
}

proof fn lemma_dot_index_at(s: Seq<char>, i: int)
    requires
        0 <= i <= s.len(),
        forall|j: int| 0 <= j < i ==> s[j] != '.',
        i == s.len() || s[i] == '.',
    ensures
        spec_dot_index(s) == i,
    decreases i,
{
    if s.len() > 0 {
        if i > 0 {
            lemma_dot_index_at(s.drop_first(), i - 1);
        }
    }
}

/// The digits before the dot.
pub open spec fn spec_int_part(s: Seq<char>) -> Seq<char> {
    s.take(spec_dot_index(s))
}

/// The first seven places after the dot, padded with zeros: the native
/// asset's fixed-point precision.
pub open spec fn spec_frac7(s: Seq<char>) -> Seq<char> {
    let d = spec_dot_index(s);
    Seq::new(
        7,
        |k: int|
            if d + 1 + k < s.len() {
                s[d + 1 + k]
            } else {
                '0'
            },
    )
}

/// A plain decimal amount: a nonempty digit string, optionally followed
/// by a dot and further digits.
pub open spec fn spec_valid_amount(s: Seq<char>) -> bool {
    let d = spec_dot_index(s);
    &&& d >= 1
    &&& spec_all_digits(s.take(d))
    &&& forall|j: int| d + 1 <= j < s.len() ==> spec_digit(#[trigger] s[j])
}

/// The amount in units of one ten-millionth, truncated to seven decimal
/// places; a text that is not a plain decimal amount counts as zero.
pub open spec fn spec_amount_stroops(s: Seq<char>) -> int {
    if spec_valid_amount(s) {
        spec_digits_val(spec_int_part(s)) * 10_000_000 + spec_digits_val(spec_frac7(s))
    } else {
        0
    }
}

/// A value clamped to the range of `u64`.
pub open spec fn spec_cap_u64(x: int) -> int {
    if x > u64::MAX {
        u64::MAX as int
    } else {
        x
    }
}

/// Powers of ten.
pub open spec fn spec_pow10(n: nat) -> int
    decreases n,
{
    if n == 0 {
        1
    } else {
        10 * spec_pow10((n - 1) as nat)
    }
}

proof fn lemma_pow10_pos(a: nat)
    ensures
        spec_pow10(a) >= 1,
    decreases a,
{
    if a > 0 {
        lemma_pow10_pos((a - 1) as nat);
    }
}

proof fn lemma_pow10_mono(a: nat, b: nat)
    requires
        a <= b,
    ensures
        spec_pow10(a) <= spec_pow10(b),
        spec_pow10(a) >= 1,
    decreases b,
{
    lemma_pow10_pos(a);
    if a < b {
        lemma_pow10_mono(a, (b - 1) as nat);
        lemma_pow10_pos((b - 1) as nat);
        assert(spec_pow10(b) == 10 * spec_pow10((b - 1) as nat));
    }
}

proof fn lemma_digits_val_bound(s: Seq<char>)
    requires
        spec_all_digits(s),
    ensures
        0 <= spec_digits_val(s) < spec_pow10(s.len()),
    decreases s.len(),
{
    if s.len() > 0 {
        assert(spec_all_digits(s.drop_last()));
        lemma_digits_val_bound(s.drop_last());
    } else {
    }
}

proof fn lemma_frac7_digits(s: Seq<char>)
    requires
        spec_valid_amount(s),
    ensures
        spec_all_digits(spec_frac7(s)),
{
    let d = spec_dot_index(s);
    assert forall|i: int| 0 <= i < 7 implies spec_digit(#[trigger] spec_frac7(s)[i]) by {
        if d + 1 + i < s.len() {
            assert(spec_digit(s[d + 1 + i]));
        } else {
            assert(spec_frac7(s)[i] == '0');
        }
    }
}

/// Parses a plain decimal amount into units of one ten-millionth,
/// truncating extra decimal places and saturating at the largest `u64`;
/// any other text parses as zero.
#[verifier::loop_isolation(false)]
pub fn parse_amount_stroops(s: &str) -> (r: u64)
    ensures
        r as int == spec_cap_u64(spec_amount_stroops(s@)),
{
    let len = s.unicode_len();
    let mut dot: usize = 0;
    while dot < len && s.get_char(dot) != '.'
        invariant
            dot <= len,
            len == s@.len(),
            forall|j: int| 0 <= j < dot ==> s@[j] != '.',
        decreases len - dot,
    {
        dot = dot + 1;
    }
    proof {
        lemma_dot_index_at(s@, dot as int);
    }
    if dot == 0 {
        return 0;
    }
    // Validate the integer part.
    let mut j: usize = 0;
    while j < dot
        invariant
            j <= dot,
            forall|m: int| 0 <= m < j ==> spec_digit(#[trigger] s@[m]),
        decreases dot - j,
    {
        let c = s.get_char(j);
        if !('0' <= c && c <= '9') {
            proof {
                assert(s@.take(dot as int)[j as int] == s@[j as int]);
                assert(!spec_valid_amount(s@));
            }
            return 0;
        }
        j = j + 1;
    }
    // Validate the decimal places.
    if dot < len {
        let mut j2: usize = dot + 1;
        while j2 < len
            invariant
                dot + 1 <= j2 <= len,
                forall|m: int| dot + 1 <= m < j2 ==> spec_digit(#[trigger] s@[m]),
            decreases len - j2,
        {
            let c = s.get_char(j2);
            if !('0' <= c && c <= '9') {
                proof {
                    assert(!spec_valid_amount(s@));
                }
                return 0;
            }
            j2 = j2 + 1;
        }
    }
    proof {
        assert(forall|m: int| 0 <= m < dot ==> spec_digit(#[trigger] s@.take(dot as int)[m]));
        assert(spec_valid_amount(s@));
    }
    // The integer part, saturating.
    let ghost ip = s@.take(dot as int);
    let mut acc: u64 = 0;
    let mut k: usize = 0;
    proof {
        assert(ip.take(0) =~= Seq::<char>::empty());
    }
    while k < dot
        invariant
            k <= dot,
            spec_all_digits(ip.take(k as int)),
            acc as int == spec_cap_u64(spec_digits_val(ip.take(k as int))),
        decreases dot - k,
    {
        let c = s.get_char(k);
        let dv = (c as u8 - 48) as u64;
        proof {
            assert(ip.take(k as int + 1).drop_last() =~= ip.take(k as int));
            assert(ip.take(k as int + 1).last() == s@[k as int]);
            assert(spec_digit_val(s@[k as int]) == dv);
            assert(0 <= dv <= 9);
            lemma_digits_val_nonneg(ip.take(k as int));
        }
        let m: u64 = if acc > u64::MAX / 10 {
            u64::MAX
        } else {
            acc * 10
        };
        proof {
            let a = spec_digits_val(ip.take(k as int));
            assert(m as int == spec_cap_u64(a * 10));
        }
        acc = m.saturating_add(dv);
        proof {
            assert(spec_all_digits(ip.take(k as int + 1)));
            assert(acc as int == spec_cap_u64(spec_digits_val(ip.take(k as int + 1))));
        }
        k = k + 1;
    }
    proof {
        assert(ip.take(dot as int) =~= ip);
    }
    // The first seven decimal places, padded with zeros.
    let ghost f7 = spec_frac7(s@);
    let mut fv: u64 = 0;
    let mut t: usize = 0;
    proof {
        assert(f7.take(0) =~= Seq::<char>::empty());
        lemma_frac7_digits(s@);
    }
    while t < 7
        invariant
            t <= 7,
            fv as int == spec_digits_val(f7.take(t as int)),
            spec_valid_amount(s@),
            dot == spec_dot_index(s@),
            dot <= len,
            len == s@.len(),
            f7 == spec_frac7(s@),
        decreases 7 - t,
    {
        proof {
            lemma_frac7_digits(s@);
            assert(spec_all_digits(f7.take(t as int)));
            lemma_digits_val_bound(f7.take(t as int));
            lemma_pow10_mono(t as nat, 7);
            assert(spec_pow10(7) == 10_000_000) by {
                reveal_with_fuel(spec_pow10, 8);
            }
            assert(fv < 10_000_000);
        }
        let c: char = if dot < len && t < len - dot - 1 {
            s.get_char(dot + 1 + t)
        } else {
            '0'
        };
        proof {
            assert(f7[t as int] == c);
            assert(f7.take(t as int + 1).drop_last() =~= f7.take(t as int));
            assert(f7.take(t as int + 1).last() == c);
            assert(spec_digit(f7[t as int]));
        }
        let dv = (c as u8 - 48) as u64;
        fv = fv * 10 + dv;
        t = t + 1;
    }
    proof {
        assert(f7.take(7) =~= f7);
        lemma_digits_val_nonneg(f7);
    }
    // Combine, saturating.
    let scaled: u64 = if acc > u64::MAX / 10_000_000 {
        u64::MAX
    } else {
        acc * 10_000_000
    };
    proof {
        let a = spec_digits_val(ip);
        assert(scaled as int == spec_cap_u64(a * 10_000_000));
    }
    let r = scaled.saturating_add(fv);
    proof {
        let a = spec_digits_val(ip);
        assert(r as int == spec_cap_u64(a * 10_000_000 + spec_digits_val(f7)));
    }
    r
}

// ============================================================================
// Corridor grouping and derivation
// ============================================================================

/// The corridor a payment belongs to: its asset code and issuer — the
/// native asset standing in where they are absent — against the native
/// asset.
pub open spec fn spec_corridor_key(p: Payment) -> Seq<char> {
    (match p.asset_code {
        Option::Some(c) => c@,
        Option::None => "XLM"@,
    }) + ":"@ + (match p.asset_issuer {
        Option::Some(x) => x@,
        Option::None => "native"@,
    }) + "->XLM:native"@
}

/// Builds the corridor key of one payment.
pub fn corridor_key(p: &Payment) -> (r: String)
    ensures
        r@ == spec_corridor_key(*p),
{
    let mut k = match &p.asset_code {
        Option::Some(c) => c.clone(),
        Option::None => "XLM".to_owned(),
    };
    k.append(":");
    match &p.asset_issuer {
        Option::Some(x) => k.append(x.as_str()),
        Option::None => k.append("native"),
    }
    k.append("->XLM:native");
    k
}

/// The distinct corridor keys of a payment page, in order of first
/// occurrence.
pub open spec fn spec_keys(ps: Seq<Payment>) -> Seq<Seq<char>>
    decreases ps.len(),
{
    if ps.len() == 0 {
        Seq::empty()
    } else {
        let init = spec_keys(ps.drop_last());
        let k = spec_corridor_key(ps.last());
        if init.contains(k) {
            init
        } else {
            init.push(k)
        }
    }
}

/// Every payment's key is listed.
pub proof fn lemma_keys_complete(ps: Seq<Payment>, m: int)
    requires
        0 <= m < ps.len(),
    ensures
        spec_keys(ps).contains(spec_corridor_key(ps[m])),
    decreases ps.len(),
{
    if m == ps.len() - 1 {
        if !spec_keys(ps.drop_last()).contains(spec_corridor_key(ps.last())) {
            assert(spec_keys(ps).last() == spec_corridor_key(ps.last()));
        }
    } else {
        lemma_keys_complete(ps.drop_last(), m);
        assert(ps.drop_last()[m] == ps[m]);
        let k = spec_corridor_key(ps[m]);
        let init = spec_keys(ps.drop_last());
        let i = choose|i: int| 0 <= i < init.len() && init[i] == k;
        if !init.contains(spec_corridor_key(ps.last())) {
            assert(spec_keys(ps)[i] == k);
        } else {
            assert(spec_keys(ps)[i] == k);
        }
    }
}

/// The listed keys are distinct.
pub proof fn lemma_keys_distinct(ps: Seq<Payment>)
    ensures
        forall|i: int, j: int|
            0 <= i < j < spec_keys(ps).len() ==> spec_keys(ps)[i] != spec_keys(ps)[j],
    decreases ps.len(),
{
    if ps.len() > 0 {
        lemma_keys_distinct(ps.drop_last());
        let init = spec_keys(ps.drop_last());
        let k = spec_corridor_key(ps.last());
        if !init.contains(k) {
            assert forall|i: int, j: int|
                0 <= i < j < spec_keys(ps).len() implies spec_keys(ps)[i] != spec_keys(ps)[j] by {
                if j < init.len() {
                } else {
                    assert(spec_keys(ps)[j] == k);
                    assert(spec_keys(ps)[i] == init[i]);
                    assert(!init.contains(k));
                }
            }
        }
    }
}

/// The total parsed amount of the payments in one corridor, before
/// clamping.
pub open spec fn spec_liq_sum(ps: Seq<Payment>, k: Seq<char>) -> int
    decreases ps.len(),
{
    if ps.len() == 0 {
        0
    } else {
        spec_liq_sum(ps.drop_last(), k) + if spec_corridor_key(ps.last()) == k {
            spec_amount_stroops(ps.last().amount@)
        } else {
            0
        }
    }
}

proof fn lemma_liq_sum_nonneg(ps: Seq<Payment>, k: Seq<char>)
    ensures
        spec_liq_sum(ps, k) >= 0,
    decreases ps.len(),
{
    if ps.len() > 0 {
        lemma_liq_sum_nonneg(ps.drop_last(), k);
        if spec_corridor_key(ps.last()) == k {
            let a = ps.last().amount@;
            if spec_valid_amount(a) {
                assert(spec_all_digits(spec_int_part(a)));
                lemma_digits_val_nonneg(spec_int_part(a));
                lemma_frac7_digits(a);
                lemma_digits_val_nonneg(spec_frac7(a));
            }
        }
    }
}

proof fn lemma_liq_sum_absent(ps: Seq<Payment>, k: Seq<char>)
    requires
        forall|m: int| 0 <= m < ps.len() ==> spec_corridor_key(#[trigger] ps[m]) != k,
    ensures
        spec_liq_sum(ps, k) == 0,
    decreases ps.len(),
{
    if ps.len() > 0 {
        assert(forall|m: int|
            0 <= m < ps.drop_last().len() ==> ps.drop_last()[m] == ps[m]);
        lemma_liq_sum_absent(ps.drop_last(), k);
    }
}

/// The derived snapshot of one corridor for one page: a fixed synthetic
/// success rate and latency, and the total parsed payment amount as
/// liquidity, clamped to `u64`. Deriving real per-corridor measurements
/// is a collaborator's concern; the monitor needs only the numeric
/// triple.
pub open spec fn spec_derived_snapshot(ps: Seq<Payment>, k: Seq<char>) -> CorridorState {
    CorridorState {
        success_rate: 100,
        latency: 600,
        liquidity: spec_cap_u64(spec_liq_sum(ps, k)) as u64,
    }
}

/// Groups one payment page by corridor and derives each corridor's
/// snapshot, keys in order of first occurrence.
#[verifier::loop_isolation(false)]
pub fn derive_snapshots(payments: &Vec<Payment>) -> (r: Vec<(String, CorridorState)>)
    ensures
        r@.len() == spec_keys(payments@).len(),
        forall|j: int|
            0 <= j < r@.len() ==> (#[trigger] r@[j].0@) == spec_keys(payments@)[j] && r@[j].1
                == spec_derived_snapshot(payments@, spec_keys(payments@)[j]),
{
    let ghost ps = payments@;
    let mut r: Vec<(String, CorridorState)> = Vec::new();
    let n = payments.len();
    let mut i: usize = 0;
    proof {
        assert(ps.take(0) =~= Seq::<Payment>::empty());
    }
    while i < n
        invariant
            i <= n,
            n == ps.len(),
            r@.len() == spec_keys(ps.take(i as int)).len(),
            forall|j: int|
                0 <= j < r@.len() ==> (#[trigger] r@[j].0@) == spec_keys(ps.take(i as int))[j]
                    && r@[j].1.success_rate == 100 && r@[j].1.latency == 600
                    && r@[j].1.liquidity as int == spec_cap_u64(
                    spec_liq_sum(ps.take(i as int), spec_keys(ps.take(i as int))[j]),
                ),
        decreases n - i,
    {
        let ghost prefix = ps.take(i as int);
        let ghost prefix1 = ps.take(i as int + 1);
        proof {
            assert(prefix1.drop_last() =~= prefix);
            assert(prefix1.last() == ps[i as int]);
            lemma_keys_distinct(prefix);
        }
        let key = corridor_key(&payments[i]);
        let amount = parse_amount_stroops(payments[i].amount.as_str());
        let ghost k = spec_corridor_key(ps[i as int]);
        let ghost keys0 = spec_keys(prefix);
        let ghost keys1 = spec_keys(prefix1);
        // Search for the corridor among those already seen.
        let mut idx: usize = 0;
        let rlen = r.len();
        let mut found = false;
        while idx < rlen && !found
            invariant
                idx <= rlen,
                rlen == r@.len(),
                !found ==> forall|j: int| 0 <= j < idx ==> (#[trigger] r@[j].0@) != key@,
                found ==> idx < rlen && r@[idx as int].0@ == key@,
            decreases rlen - idx + (if found { 0int } else { 1int }),
        {
            if r[idx].0 == key {
                found = true;
            } else {
                idx = idx + 1;
            }
        }
        if found {
            proof {
                assert(keys0.contains(k)) by {
                    assert(keys0[idx as int] == k);
                }
                assert(keys1 == keys0);
                lemma_liq_sum_nonneg(prefix, k);
                if spec_valid_amount(ps[i as int].amount@) {
                    let a = ps[i as int].amount@;
                    assert(spec_all_digits(spec_int_part(a)));
                    lemma_digits_val_nonneg(spec_int_part(a));
                    lemma_frac7_digits(a);
                    lemma_digits_val_nonneg(spec_frac7(a));
                }
            }
            let cur = r[idx].1.liquidity;
            proof {
                let sum = spec_liq_sum(prefix, k);
                let v = spec_amount_stroops(ps[i as int].amount@);
                assert(cur as int == spec_cap_u64(sum));
                assert(amount as int == spec_cap_u64(v));
                assert(sum >= 0);
                assert(v >= 0);
                assert(cur.saturating_add(amount) as int == spec_cap_u64(sum + v));
            }
            let ghost r_old = r@;
            let entry = &mut r[idx];
            entry.1.liquidity = cur.saturating_add(amount);
            proof {
                assert(r@[idx as int].0 == r_old[idx as int].0);
                assert(r@[idx as int].1.success_rate == r_old[idx as int].1.success_rate);
                assert(r@[idx as int].1.latency == r_old[idx as int].1.latency);
                assert(r@[idx as int].1.liquidity == cur.saturating_add(amount));
                assert forall|j: int| 0 <= j < r@.len() implies (#[trigger] r@[j].0@) == keys1[j]
                    && r@[j].1.success_rate == 100 && r@[j].1.latency == 600 && r@[j].1.liquidity
                    as int == spec_cap_u64(spec_liq_sum(prefix1, keys1[j])) by {
                    if j == idx as int {
                        assert(r_old[j].0@ == keys0[j]);
                        assert(keys0[idx as int] == k);
                        assert(spec_liq_sum(prefix1, k) == spec_liq_sum(prefix, k)
                            + spec_amount_stroops(ps[i as int].amount@));
                    } else {
                        assert(r@[j] == r_old[j]);
                        assert(r_old[j].0@ == keys0[j]);
                        assert(keys1[j] != k);
                        assert(spec_liq_sum(prefix1, keys1[j]) == spec_liq_sum(prefix, keys1[j]));
                    }
                }
            }
        } else {
            proof {
                assert(!keys0.contains(k)) by {
                    if keys0.contains(k) {
                        let w = choose|w: int| 0 <= w < keys0.len() && #[trigger] keys0[w] == k;
                        assert(r@[w].0@ == k);
                    }
                }
                assert(keys1 == keys0.push(k));
                assert forall|m: int|
                    0 <= m < prefix.len() implies spec_corridor_key(#[trigger] prefix[m]) != k by {
                    lemma_keys_complete(prefix, m);
                }
                lemma_liq_sum_absent(prefix, k);
                assert(spec_liq_sum(prefix1, k) == spec_amount_stroops(ps[i as int].amount@));
            }
            r.push((key, CorridorState { success_rate: 100, latency: 600, liquidity: amount }));
            proof {
                assert forall|j: int| 0 <= j < r@.len() implies (#[trigger] r@[j].0@) == keys1[j]
                    && r@[j].1.success_rate == 100 && r@[j].1.latency == 600 && r@[j].1.liquidity
                    as int == spec_cap_u64(spec_liq_sum(prefix1, keys1[j])) by {
                    if j < r@.len() - 1 {
                        assert(keys1[j] == keys0[j]);
                        assert(keys1[j] != k);
                        assert(spec_liq_sum(prefix1, keys1[j]) == spec_liq_sum(prefix, keys1[j]));
                    } else {
                        assert(keys1[j] == k);
                    }
                }
            }
        }
        i = i + 1;
    }
    proof {
        assert(ps.take(n as int) =~= ps);
    }
    r
}

/// The alerts of one whole monitor cycle, corridor by corridor in first
/// occurrence order: an entity with a stored baseline contributes exactly
/// its threshold alerts against the derived snapshot, and an entity seen
/// for the first time contributes none.
pub open spec fn spec_cycle_alerts(
    before: CorridorMonitor,
    ps: Seq<Payment>,
    keys: Seq<Seq<char>>,
    ts: Seq<char>,
    alerts: Seq<Alert>,
) -> bool
    decreases keys.len(),
{
    if keys.len() == 0 {
        alerts.len() == 0
    } else {
        let k = keys[0];
        let snap = spec_derived_snapshot(ps, k);
        match before.spec_snapshot(k) {
            Option::None => spec_cycle_alerts(before, ps, keys.drop_first(), ts, alerts),
            Option::Some(prev) => {
                let cnt = spec_corridor_alert_count(
                    prev.success_rate,
                    snap.success_rate,
                    prev.latency,
                    snap.latency,
                    prev.liquidity,
                    snap.liquidity,
                );
                &&& alerts.len() >= cnt
                &&& spec_corridor_alerts(
                    alerts.take(cnt),
                    k,
                    prev.success_rate,
                    snap.success_rate,
                    prev.latency,
                    snap.latency,
                    prev.liquidity,
                    snap.liquidity,
                    ts,
                )
                &&& spec_cycle_alerts(before, ps, keys.drop_first(), ts, alerts.skip(cnt))
            },
        }
    }
}

impl CorridorMonitor {
    /// One whole monitor cycle over a fetched page of payments: groups the
    /// page by corridor, derives each corridor's snapshot, raises the
    /// threshold alerts against the stored baselines, and overwrites every
    /// stored snapshot — whether or not an alert fired. Returns the
    /// alerts, corridor by corridor in first occurrence order.
    #[verifier::loop_isolation(false)]
    pub fn process_payments(&mut self, payments: &Vec<Payment>, timestamp: &str) -> (alerts: Vec<
        Alert,
    >)
        requires
            old(self).wf(),
        ensures
            final(self).wf(),
            forall|j: int|
                0 <= j < spec_keys(payments@).len() ==> final(self).spec_snapshot(
                    #[trigger] spec_keys(payments@)[j],
                ) == Option::Some(spec_derived_snapshot(payments@, spec_keys(payments@)[j])),
            forall|k: Seq<char>|
                !spec_keys(payments@).contains(k) ==> final(self).spec_snapshot(k) == old(
                    self,
                ).spec_snapshot(k),
            spec_cycle_alerts(*old(self), payments@, spec_keys(payments@), timestamp@, alerts@),
    {
        let groups = derive_snapshots(payments);
        let ghost ps = payments@;
        let ghost keys = spec_keys(ps);
        let ghost m0 = *self;
        proof {
            lemma_keys_distinct(ps);
        }
        let mut alerts: Vec<Alert> = Vec::new();
        let n = groups.len();
        let mut i: usize = 0;
        proof {
            assert(keys.skip(0) =~= keys);
            assert forall|rest: Seq<Alert>|
                spec_cycle_alerts(m0, ps, keys.skip(0), timestamp@, rest)
                    implies #[trigger] spec_cycle_alerts(m0, ps, keys, timestamp@, alerts@ + rest) by {
                assert(alerts@ + rest =~= rest);
            }
        }
        while i < n
            invariant
                i <= n,
                n == keys.len(),
                self.wf(),
                forall|j: int|
                    0 <= j < i ==> self.spec_snapshot(#[trigger] keys[j]) == Option::Some(
                        spec_derived_snapshot(ps, keys[j]),
                    ),
                forall|k: Seq<char>|
                    !keys.take(i as int).contains(k) ==> self.spec_snapshot(k) == m0.spec_snapshot(
                        k,
                    ),
                forall|rest: Seq<Alert>|
                    spec_cycle_alerts(m0, ps, keys.skip(i as int), timestamp@, rest) ==> #[trigger] spec_cycle_alerts(
                        m0,
                        ps,
                        keys,
                        timestamp@,
                        alerts@ + rest,
                    ),
            decreases n - i,
        {
            let ghost k = keys[i as int];
            let ghost before_step = *self;
            proof {
                assert(!keys.take(i as int).contains(k)) by {
                    if keys.take(i as int).contains(k) {
                        let w = choose|w: int|
                            0 <= w < i && #[trigger] keys.take(i as int)[w] == k;
                        assert(keys[w] == keys[i as int]);
                    }
                }
                assert(self.spec_snapshot(k) == m0.spec_snapshot(k));
            }
            let snap = groups[i].1;
            let mut chunk = self.observe(&groups[i].0, snap, timestamp);
            let ghost chunk_view = chunk@;
            proof {
                assert(groups@[i as int].0@ == k);
                assert(snap == spec_derived_snapshot(ps, k));
                // Snapshots of other keys are untouched.
                assert forall|kk: Seq<char>|
                    kk != k implies self.spec_snapshot(kk) == before_step.spec_snapshot(kk) by {}
                // Extend the continuation invariant by this corridor's chunk.
                assert(keys.skip(i as int).drop_first() =~= keys.skip(i as int + 1));
                assert(keys.skip(i as int)[0] == k);
                assert forall|rest: Seq<Alert>|
                    spec_cycle_alerts(m0, ps, keys.skip(i as int + 1), timestamp@, rest)
                        implies #[trigger] spec_cycle_alerts(
                        m0,
                        ps,
                        keys,
                        timestamp@,
                        (alerts@ + chunk_view) + rest,
                    ) by {
                    match m0.spec_snapshot(k) {
                        Option::None => {
                            assert(chunk_view.len() == 0);
                            assert((alerts@ + chunk_view) + rest =~= alerts@ + (chunk_view
                                + rest));
                            assert(chunk_view + rest =~= rest);
                            assert(spec_cycle_alerts(
                                m0,
                                ps,
                                keys.skip(i as int),
                                timestamp@,
                                rest,
                            ));
                        },
                        Option::Some(prev) => {
                            let cnt = spec_corridor_alert_count(
                                prev.success_rate,
                                snap.success_rate,
                                prev.latency,
                                snap.latency,
                                prev.liquidity,
                                snap.liquidity,
                            );
                            assert(chunk_view.len() == cnt);
                            assert((chunk_view + rest).take(cnt) =~= chunk_view);
                            assert((chunk_view + rest).skip(cnt) =~= rest);
                            assert(spec_cycle_alerts(
                                m0,
                                ps,
                                keys.skip(i as int),
                                timestamp@,
                                chunk_view + rest,
                            ));
                            assert((alerts@ + chunk_view) + rest =~= alerts@ + (chunk_view
                                + rest));
                        },
                    }
                }
            }
            alerts.append(&mut chunk);
            i = i + 1;
            proof {
                assert forall|j: int|
                    0 <= j < i implies self.spec_snapshot(#[trigger] keys[j]) == Option::Some(
                    spec_derived_snapshot(ps, keys[j]),
                ) by {
                    if j < i - 1 {
                        assert(keys[j] != k);
                    }
                }
                assert forall|kk: Seq<char>|
                    !keys.take(i as int).contains(kk) implies self.spec_snapshot(kk)
                    == m0.spec_snapshot(kk) by {
                    assert(kk != k) by {
                        assert(keys.take(i as int)[i - 1] == k);
                    }
                    assert(!keys.take(i as int - 1).contains(kk)) by {
                        if keys.take(i as int - 1).contains(kk) {
                            let w = choose|w: int|
                                0 <= w < i - 1 && #[trigger] keys.take(i as int - 1)[w] == kk;
                            assert(keys.take(i as int)[w] == kk);
                        }
                    }
                }
            }
        }
        proof {
            assert(keys.skip(n as int) =~= Seq::<Seq<char>>::empty());
            assert(spec_cycle_alerts(m0, ps, keys.skip(n as int), timestamp@, Seq::empty()));
            assert(alerts@ + Seq::<Alert>::empty() =~= alerts@);
            assert(keys.take(n as int) =~= keys);
        }
        alerts
    }
}

} // verus!
