//! Alert types, threshold rules, and the best-effort fan-out hub.
//!
//! Three independent corridor checks compare a previous metric snapshot
//! with the present one: a success-rate drop of more than ten absolute
//! points, a latency increase of more than half the prior value, and a
//! liquidity fall below seven tenths of the prior value. Zero, one, or
//! several alerts may fire per comparison.
//!
//! The hub distributes every alert to each subscriber's bounded queue,
//! silently dropping the copy for a subscriber that has fallen behind —
//! at-most-once, best-effort fan-out that never blocks the monitor.
//! Anchor-status alerts additionally queue a notification for an external
//! trigger, on a bounded queue of its own that the surrounding runtime
//! drains and delivers without the alert path waiting on it.

use vstd::prelude::*;

use crate::strutil::{spec_dec, u64_to_string};

verus! {

/// What kind of transition an alert reports.
#[derive(Debug, Clone, Copy, PartialEq, Eq, Structural)]
pub enum AlertType {
    SuccessRateDrop,
    LatencyIncrease,
    LiquidityDecrease,
    AnchorStatusChange,
    AnchorMetricChange,
}

/// One alert, immutable once constructed; subscribers receive copies.
#[derive(Debug, Clone)]
pub struct Alert {
    pub alert_type: AlertType,
    pub corridor_id: Option<String>,
    pub anchor_id: Option<String>,
    pub message: String,
    pub old_value: u64,
    pub new_value: u64,
    pub timestamp: String,
}

/// Field-by-field sameness of two alerts, comparing the text fields by
/// their contents.
pub open spec fn spec_alert_eq(a: Alert, b: Alert) -> bool {
    &&& a.alert_type == b.alert_type
    &&& match (a.corridor_id, b.corridor_id) {
        (Option::Some(x), Option::Some(y)) => x@ == y@,
        (Option::None, Option::None) => true,
        _ => false,
    }
    &&& match (a.anchor_id, b.anchor_id) {
        (Option::Some(x), Option::Some(y)) => x@ == y@,
        (Option::None, Option::None) => true,
        _ => false,
    }
    &&& a.message@ == b.message@
    &&& a.old_value == b.old_value
    &&& a.new_value == b.new_value
    &&& a.timestamp@ == b.timestamp@
}

impl Alert {
    /// A copy whose text fields hold the same contents.
    pub fn duplicate(&self) -> (r: Alert)
        ensures
            spec_alert_eq(r, *self),
    {
        Alert {
            alert_type: self.alert_type,
            corridor_id: match &self.corridor_id {
                Option::Some(c) => Option::Some(c.clone()),
                Option::None => Option::None,
            },
            anchor_id: match &self.anchor_id {
                Option::Some(a) => Option::Some(a.clone()),
                Option::None => Option::None,
            },
            message: self.message.clone(),
            old_value: self.old_value,
            new_value: self.new_value,
            timestamp: self.timestamp.clone(),
        }
    }
}

/// The success rate fell by more than ten absolute points.
pub open spec fn spec_success_drop(old_success: u64, new_success: u64) -> bool {
    new_success + 10 < old_success
}

/// The latency grew by more than half of the prior value.
pub open spec fn spec_latency_increase(old_latency: u64, new_latency: u64) -> bool {
    2 * new_latency > 3 * old_latency
}

/// The liquidity fell below seven tenths of the prior value.
pub open spec fn spec_liquidity_decrease(old_liquidity: u64, new_liquidity: u64) -> bool {
    10 * new_liquidity < 7 * old_liquidity
}

/// The message text of a success-rate alert.
pub open spec fn spec_success_msg(o: u64, n: u64) -> Seq<char> {
    "Success rate dropped from "@ + spec_dec(o as nat) + "% to "@ + spec_dec(n as nat) + "%"@
}

/// The message text of a latency alert.
pub open spec fn spec_latency_msg(o: u64, n: u64) -> Seq<char> {
    "Latency increased from "@ + spec_dec(o as nat) + "ms to "@ + spec_dec(n as nat) + "ms"@
}

/// The message text of a liquidity alert.
pub open spec fn spec_liquidity_msg(o: u64, n: u64) -> Seq<char> {
    "Liquidity decreased from $"@ + spec_dec(o as nat) + " to $"@ + spec_dec(n as nat)
}

/// One corridor alert with the given type, message and values, tagged with
/// the corridor and carrying no anchor.
pub open spec fn spec_is_corridor_alert(
    a: Alert,
    ty: AlertType,
    cid: Seq<char>,
    msg: Seq<char>,
    old_value: u64,
    new_value: u64,
    ts: Seq<char>,
) -> bool {
    &&& a.alert_type == ty
    &&& a.corridor_id matches Option::Some(c) && c@ == cid
    &&& a.anchor_id is None
    &&& a.message@ == msg
    &&& a.old_value == old_value
    &&& a.new_value == new_value
    &&& a.timestamp@ == ts
}

/// Exactly which alerts one corridor comparison yields, in order: the
/// success-rate drop first when it fired, then the latency increase, then
/// the liquidity decrease — and nothing else.
pub open spec fn spec_corridor_alerts(
    alerts: Seq<Alert>,
    cid: Seq<char>,
    old_success: u64,
    new_success: u64,
    old_latency: u64,
    new_latency: u64,
    old_liquidity: u64,
    new_liquidity: u64,
    ts: Seq<char>,
) -> bool {
    let drop_fired = spec_success_drop(old_success, new_success);
    let lat_fired = spec_latency_increase(old_latency, new_latency);
    let liq_fired = spec_liquidity_decrease(old_liquidity, new_liquidity);
    &&& alerts.len() == (if drop_fired { 1int } else { 0int }) + (if lat_fired { 1int } else { 0int })
        + (if liq_fired { 1int } else { 0int })
    &&& drop_fired ==> spec_is_corridor_alert(
        alerts[0],
        AlertType::SuccessRateDrop,
        cid,
        spec_success_msg(old_success, new_success),
        old_success,
        new_success,
        ts,
    )
    &&& lat_fired ==> spec_is_corridor_alert(
        alerts[if drop_fired { 1int } else { 0int }],
        AlertType::LatencyIncrease,
        cid,
        spec_latency_msg(old_latency, new_latency),
        old_latency,
        new_latency,
        ts,
    )
    &&& liq_fired ==> spec_is_corridor_alert(
        alerts[(if drop_fired { 1int } else { 0int }) + (if lat_fired { 1int } else { 0int })],
        AlertType::LiquidityDecrease,
        cid,
        spec_liquidity_msg(old_liquidity, new_liquidity),
        old_liquidity,
        new_liquidity,
        ts,
    )
}

/// The number of alerts one corridor comparison yields.
pub open spec fn spec_corridor_alert_count(
    old_success: u64,
    new_success: u64,
    old_latency: u64,
    new_latency: u64,
    old_liquidity: u64,
    new_liquidity: u64,
) -> int {
    (if spec_success_drop(old_success, new_success) { 1int } else { 0int })
        + (if spec_latency_increase(old_latency, new_latency) { 1int } else { 0int })
        + (if spec_liquidity_decrease(old_liquidity, new_liquidity) { 1int } else { 0int })
}

fn success_msg(o: u64, n: u64) -> (r: String)
    ensures
        r@ == spec_success_msg(o, n),
{
    let mut m = "Success rate dropped from ".to_owned();
    m.append(u64_to_string(o).as_str());
    m.append("% to ");
    m.append(u64_to_string(n).as_str());
    m.append("%");
    m
}

fn latency_msg(o: u64, n: u64) -> (r: String)
    ensures
        r@ == spec_latency_msg(o, n),
{
    let mut m = "Latency increased from ".to_owned();
    m.append(u64_to_string(o).as_str());
    m.append("ms to ");
    m.append(u64_to_string(n).as_str());
    m.append("ms");
    m
}

fn liquidity_msg(o: u64, n: u64) -> (r: String)
    ensures
        r@ == spec_liquidity_msg(o, n),
{
    let mut m = "Liquidity decreased from $".to_owned();
    m.append(u64_to_string(o).as_str());
    m.append(" to $");
    m.append(u64_to_string(n).as_str());
    m
}

/// Builds the alerts one corridor comparison yields, exactly as
/// [`spec_corridor_alerts`] describes.
pub fn make_corridor_alerts(
    corridor_id: &str,
    old_success: u64,
    new_success: u64,
    old_latency: u64,
    new_latency: u64,
    old_liquidity: u64,
    new_liquidity: u64,
    timestamp: &str,
) -> (r: Vec<Alert>)
    ensures
        spec_corridor_alerts(
            r@,
            corridor_id@,
            old_success,
            new_success,
            old_latency,
            new_latency,
            old_liquidity,
            new_liquidity,
            timestamp@,
        ),
{
    let mut r: Vec<Alert> = Vec::new();
    if new_success < old_success && old_success - new_success > 10 {
        r.push(Alert {
            alert_type: AlertType::SuccessRateDrop,
            corridor_id: Option::Some(corridor_id.to_owned()),
            anchor_id: Option::None,
            message: success_msg(old_success, new_success),
            old_value: old_success,
            new_value: new_success,
            timestamp: timestamp.to_owned(),
        });
    }
    if (new_latency as u128) * 2 > (old_latency as u128) * 3 {
        r.push(Alert {
            alert_type: AlertType::LatencyIncrease,
            corridor_id: Option::Some(corridor_id.to_owned()),
            anchor_id: Option::None,
            message: latency_msg(old_latency, new_latency),
            old_value: old_latency,
            new_value: new_latency,
            timestamp: timestamp.to_owned(),
        });
    }
    if (new_liquidity as u128) * 10 < (old_liquidity as u128) * 7 {
        r.push(Alert {
            alert_type: AlertType::LiquidityDecrease,
            corridor_id: Option::Some(corridor_id.to_owned()),
            anchor_id: Option::None,
            message: liquidity_msg(old_liquidity, new_liquidity),
            old_value: old_liquidity,
            new_value: new_liquidity,
            timestamp: timestamp.to_owned(),
        });
    }
    r
}

/// The qualitative status of an entity: `healthy` strictly above 90,
/// `degraded` otherwise.
pub open spec fn spec_health_status(value: u64) -> Seq<char> {
    if value > 90 {
        "healthy"@
    } else {
        "degraded"@
    }
}

/// Exec mirror of [`spec_health_status`].
pub fn health_status(value: u64) -> (r: &'static str)
    ensures
        r@ == spec_health_status(value),
{
    if value > 90 {
        "healthy"
    } else {
        "degraded"
    }
}

/// A queued hand-off for the external notification trigger, produced by an
/// anchor-status alert. The surrounding runtime drains the queue and
/// delivers each entry without the alert path waiting on it.
#[derive(Debug, Clone)]
pub struct StatusNotification {
    pub anchor_id: String,
    pub old_status: String,
    pub new_status: String,
    pub new_value: u64,
    pub failed_count: u64,
}

/// Relies on chrono's `Utc::now` and `DateTime::to_rfc3339` for the
/// wall-clock timestamp stamped onto alerts; nothing is assumed of the
/// reading itself.
#[verifier::external_body]
fn now_rfc3339() -> (r: String) {
    chrono::Utc::now().to_rfc3339()
}

/// The fan-out hub: one bounded queue per subscriber, and a bounded queue
/// of pending external notifications.
pub struct AlertManager {
    capacity: usize,
    queues: Vec<Vec<Alert>>,
    notifications_enabled: bool,
    notifications: Vec<StatusNotification>,
}

impl AlertManager {
    /// Queue bound for subscribers and notifications alike.
    pub closed spec fn spec_capacity(&self) -> int {
        self.capacity as int
    }

    /// The queued alerts of each subscriber, oldest first.
    pub closed spec fn spec_queues(&self) -> Seq<Seq<Alert>> {
        Seq::new(self.queues@.len(), |i: int| self.queues@[i]@)
    }

    /// Whether anchor-status alerts also queue external notifications.
    pub closed spec fn spec_notifications_enabled(&self) -> bool {
        self.notifications_enabled
    }

    /// The pending external notifications, oldest first.
    pub closed spec fn spec_notifications(&self) -> Seq<StatusNotification> {
        self.notifications@
    }

    /// A fresh hub with no subscribers, a queue bound of 100, and no
    /// external notification trigger attached.
    pub fn new() -> (m: Self)
        ensures
            m.spec_capacity() == 100,
            m.spec_queues().len() == 0,
            !m.spec_notifications_enabled(),
            m.spec_notifications().len() == 0,
    {
        AlertManager {
            capacity: 100,
            queues: Vec::new(),
            notifications_enabled: false,
            notifications: Vec::new(),
        }
    }

    /// A fresh hub that additionally hands anchor-status transitions to the
    /// external notification trigger.
    pub fn new_with_webhooks() -> (m: Self)
        ensures
            m.spec_capacity() == 100,
            m.spec_queues().len() == 0,
            m.spec_notifications_enabled(),
            m.spec_notifications().len() == 0,
    {
        AlertManager {
            capacity: 100,
            queues: Vec::new(),
            notifications_enabled: true,
            notifications: Vec::new(),
        }
    }

    /// Registers a new subscriber and returns its handle; the subscriber
    /// starts with an empty queue.
    pub fn subscribe(&mut self) -> (handle: usize)
        requires
            old(self).spec_queues().len() < usize::MAX,
        ensures
            handle == old(self).spec_queues().len(),
            final(self).spec_queues() == old(self).spec_queues().push(Seq::<Alert>::empty()),
            final(self).spec_capacity() == old(self).spec_capacity(),
            final(self).spec_notifications_enabled() == old(self).spec_notifications_enabled(),
            final(self).spec_notifications() == old(self).spec_notifications(),
    {
        let handle = self.queues.len();
        self.queues.push(Vec::new());
        proof {
            assert(self.spec_queues() =~= old(self).spec_queues().push(Seq::<Alert>::empty()));
        }
        handle
    }

    /// Drains and returns a subscriber's queued alerts, oldest first.
    pub fn drain(&mut self, handle: usize) -> (r: Vec<Alert>)
        requires
            handle < old(self).spec_queues().len(),
        ensures
            r@ == old(self).spec_queues()[handle as int],
            final(self).spec_queues() == old(self).spec_queues().update(
                handle as int,
                Seq::<Alert>::empty(),
            ),
            final(self).spec_capacity() == old(self).spec_capacity(),
            final(self).spec_notifications_enabled() == old(self).spec_notifications_enabled(),
            final(self).spec_notifications() == old(self).spec_notifications(),
    {
        let mut taken: Vec<Alert> = Vec::new();
        core::mem::swap(&mut taken, &mut self.queues[handle]);
        proof {
            assert(self.spec_queues() =~= old(self).spec_queues().update(
                handle as int,
                Seq::<Alert>::empty(),
            ));
        }
        taken
    }

    /// Best-effort broadcast: each subscriber whose queue has room gets a
    /// copy; a full queue drops the copy silently, and with no subscriber
    /// the alert is simply gone. Returns how many copies were delivered.
    pub fn send_alert(&mut self, alert: &Alert) -> (delivered: usize)
        ensures
            final(self).spec_queues().len() == old(self).spec_queues().len(),
            forall|i: int|
                0 <= i < old(self).spec_queues().len() ==> {
                    let q = old(self).spec_queues()[i];
                    if q.len() < old(self).spec_capacity() {
                        #[trigger] final(self).spec_queues()[i].len() == q.len() + 1
                            && final(self).spec_queues()[i].take(q.len() as int) == q
                            && spec_alert_eq(final(self).spec_queues()[i].last(), *alert)
                    } else {
                        final(self).spec_queues()[i] == q
                    }
                },
            delivered <= old(self).spec_queues().len(),
            final(self).spec_capacity() == old(self).spec_capacity(),
            final(self).spec_notifications_enabled() == old(self).spec_notifications_enabled(),
            final(self).spec_notifications() == old(self).spec_notifications(),
    {
        let mut delivered: usize = 0;
        let mut i: usize = 0;
        let n = self.queues.len();
        while i < n
            invariant
                n == self.queues@.len(),
                n == old(self).spec_queues().len(),
                i <= n,
                delivered <= i,
                self.capacity == old(self).spec_capacity(),
                self.notifications_enabled == old(self).spec_notifications_enabled(),
                self.notifications@ == old(self).spec_notifications(),
                forall|j: int|
                    i <= j < n ==> #[trigger] self.queues@[j]@ == old(self).spec_queues()[j],
                forall|j: int|
                    0 <= j < i ==> {
                        let q = old(self).spec_queues()[j];
                        if q.len() < old(self).spec_capacity() {
                            #[trigger] self.queues@[j]@.len() == q.len() + 1
                                && self.queues@[j]@.take(q.len() as int) == q
                                && spec_alert_eq(self.queues@[j]@.last(), *alert)
                        } else {
                            self.queues@[j]@ == q
                        }
                    },
            decreases n - i,
        {
            if self.queues[i].len() < self.capacity {
                let copy = alert.duplicate();
                let ghost before = self.queues@[i as int]@;
                self.queues[i].push(copy);
                proof {
                    assert(self.queues@[i as int]@.take(before.len() as int) =~= before);
                }
                delivered = delivered + 1;
            }
            i = i + 1;
        }
        delivered
    }

    /// The three corridor threshold checks against the prior snapshot,
    /// with each alert that fired broadcast to the subscribers. Returns
    /// the alerts that fired, exactly as [`spec_corridor_alerts`]
    /// describes, stamped with the present wall-clock time.
    pub fn check_and_alert(
        &mut self,
        corridor_id: &str,
        old_success: u64,
        new_success: u64,
        old_latency: u64,
        new_latency: u64,
        old_liquidity: u64,
        new_liquidity: u64,
    ) -> (r: Vec<Alert>)
        ensures
            exists|ts: Seq<char>|
                #[trigger] spec_corridor_alerts(
                    r@,
                    corridor_id@,
                    old_success,
                    new_success,
                    old_latency,
                    new_latency,
                    old_liquidity,
                    new_liquidity,
                    ts,
                ),
            final(self).spec_queues().len() == old(self).spec_queues().len(),
            final(self).spec_capacity() == old(self).spec_capacity(),
            final(self).spec_notifications_enabled() == old(self).spec_notifications_enabled(),
            final(self).spec_notifications() == old(self).spec_notifications(),
    {
        let ts = now_rfc3339();
        let alerts = make_corridor_alerts(
            corridor_id,
            old_success,
            new_success,
            old_latency,
            new_latency,
            old_liquidity,
            new_liquidity,
            ts.as_str(),
        );
        let mut i: usize = 0;
        let n = alerts.len();
        while i < n
            invariant
                n == alerts@.len(),
                i <= n,
                self.queues@.len() == old(self).spec_queues().len(),
                self.capacity == old(self).spec_capacity(),
                self.notifications_enabled == old(self).spec_notifications_enabled(),
                self.notifications@ == old(self).spec_notifications(),
            decreases n - i,
        {
            let _ = self.send_alert(&alerts[i]);
            i = i + 1;
        }
        alerts
    }

    /// Builds and broadcasts one anchor alert, and — when the external
    /// trigger is attached — queues a status-change notification whose old
    /// and new qualitative statuses are judged by [`spec_health_status`].
    /// A full notification queue drops the hand-off silently.
    pub fn send_anchor_alert(
        &mut self,
        alert_type: AlertType,
        anchor_id: &str,
        message: String,
        old_value: u64,
        new_value: u64,
    ) -> (r: Alert)
        ensures
            r.alert_type == alert_type,
            r.corridor_id is None,
            r.anchor_id matches Option::Some(a) && a@ == anchor_id@,
            r.message@ == message@,
            r.old_value == old_value,
            r.new_value == new_value,
            final(self).spec_queues().len() == old(self).spec_queues().len(),
            final(self).spec_capacity() == old(self).spec_capacity(),
            final(self).spec_notifications_enabled() == old(self).spec_notifications_enabled(),
            ({
                let ns = old(self).spec_notifications();
                if old(self).spec_notifications_enabled() && ns.len() < old(self).spec_capacity() {
                    final(self).spec_notifications().len() == ns.len() + 1
                        && final(self).spec_notifications().take(ns.len() as int) == ns && {
                        let queued = final(self).spec_notifications().last();
                        &&& queued.anchor_id@ == anchor_id@
                        &&& queued.old_status@ == spec_health_status(old_value)
                        &&& queued.new_status@ == spec_health_status(new_value)
                        &&& queued.new_value == new_value
                        &&& queued.failed_count == 0
                    }
                } else {
                    final(self).spec_notifications() == ns
                }
            }),
    {
        let alert = Alert {
            alert_type,
            corridor_id: Option::None,
            anchor_id: Option::Some(anchor_id.to_owned()),
            message,
            old_value,
            new_value,
            timestamp: now_rfc3339(),
        };
        let _ = self.send_alert(&alert);
        if self.notifications_enabled && self.notifications.len() < self.capacity {
            let ghost before = self.notifications@;
            self.notifications.push(StatusNotification {
                anchor_id: anchor_id.to_owned(),
                old_status: health_status(old_value).to_owned(),
                new_status: health_status(new_value).to_owned(),
                new_value,
                failed_count: 0,
            });
            proof {
                assert(self.notifications@.take(before.len() as int) =~= before);
            }
        }
        alert
    }

    /// Drains the pending external notifications, oldest first, for the
    /// surrounding runtime to deliver.
    pub fn take_notifications(&mut self) -> (r: Vec<StatusNotification>)
        ensures
            r@ == old(self).spec_notifications(),
            final(self).spec_notifications().len() == 0,
            final(self).spec_queues() == old(self).spec_queues(),
            final(self).spec_capacity() == old(self).spec_capacity(),
            final(self).spec_notifications_enabled() == old(self).spec_notifications_enabled(),
    {
        let mut taken: Vec<StatusNotification> = Vec::new();
        core::mem::swap(&mut taken, &mut self.notifications);
        taken
    }
}

} // verus!
