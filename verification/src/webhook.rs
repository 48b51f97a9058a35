//! Webhook subscriptions and delivery bookkeeping for the off-chain API.
//!
//! The registry decides who receives an event and records each delivery;
//! the host sends the HTTP requests and reports their outcome through
//! [`send_step`] and [`WebhookManager::update_delivery`].

use chrono::Utc;
use vstd::arithmetic::power2::{lemma2_to64, lemma_pow2_strictly_increases, lemma_pow2_unfold, pow2};
use vstd::prelude::*;

verus! {

/// A UTC instant: seconds since the Unix epoch and the nanoseconds within
/// that second.
#[derive(Clone, Copy, Debug, PartialEq, Eq, Structural)]
pub struct Timestamp {
    pub secs: i64,
    pub nanos: u32,
}

#[verifier::external_type_specification]
#[verifier::external_body]
pub struct ExJsonValue(serde_json::Value);

/// `c` is a lowercase hexadecimal digit.
pub open spec fn is_lower_hex_digit(c: char) -> bool {
    ('0' as int <= c as int <= '9' as int) || ('a' as int <= c as int <= 'f' as int)
}

/// `s` is a version 4 UUID in lowercase hyphenated form: 36 characters,
/// hyphens at 8, 13, 18 and 23, lowercase hexadecimal digits elsewhere, the
/// version digit `4` at 14 and a variant digit `8`, `9`, `a` or `b` at 19.
pub open spec fn is_uuid_v4_text(s: Seq<char>) -> bool {
    &&& s.len() == 36
    &&& forall|i: int|
        0 <= i < 36 ==> (if i == 8 || i == 13 || i == 18 || i == 23 {
            s[i] == '-'
        } else {
            is_lower_hex_digit(#[trigger] s[i])
        })
    &&& s[14] == '4'
    &&& (s[19] == '8' || s[19] == '9' || s[19] == 'a' || s[19] == 'b')
}

/// `t` is an instant at or after the Unix epoch with a sub-second part
/// below one second.
pub open spec fn is_clock_reading(t: Timestamp) -> bool {
    t.secs >= 0 && t.nanos < 1_000_000_000
}

/// Calls `uuid::Uuid::new_v4` and renders the identifier with `to_string`.
/// `new_v4` masks random bits to set version 4 and the RFC variant, and
/// `to_string` writes the lowercase hyphenated form; which identifier comes
/// out is random and not described.
#[verifier::external_body]
fn fresh_identifier() -> (id: String)
    ensures
        is_uuid_v4_text(id@),
{
    uuid::Uuid::new_v4().to_string()
}

/// Calls `chrono::Utc::now` and splits the instant into seconds and
/// nanoseconds.  `Utc::now` measures the system clock from the Unix epoch,
/// so the seconds are not negative, and takes the sub-second part of a
/// `Duration`, below one second; the reading itself is not described.
#[verifier::external_body]
fn current_time() -> (t: Timestamp)
    ensures
        is_clock_reading(t),
{
    let now = Utc::now();
    Timestamp { secs: now.timestamp(), nanos: now.timestamp_subsec_nanos() }
}

#[derive(Debug)]
pub enum WebhookError {
    /// Failed to send the webhook.
    SendError(String),
    /// The webhook URL is not an http(s) URL.
    InvalidUrl,
    /// No webhook has the given id.
    NotFound,
}

#[derive(Clone, Copy, Debug, PartialEq, Eq, Structural)]
pub enum DeliveryStatus {
    Pending,
    Success,
    Failed,
    Retrying,
}

pub struct WebhookEvent {
    pub id: String,
    pub event_type: String,
    pub timestamp: Timestamp,
    pub data: serde_json::Value,
}

pub struct WebhookSubscription {
    pub id: String,
    pub url: String,
    /// Event types the subscriber receives.
    pub events: Vec<String>,
    pub active: bool,
    pub created_at: Timestamp,
    pub retry_count: u32,
    pub max_retries: u32,
}

pub struct WebhookDelivery {
    pub id: String,
    pub webhook_id: String,
    pub event_id: String,
    pub status: DeliveryStatus,
    pub timestamp: Timestamp,
    pub response_code: Option<u16>,
    pub error: Option<String>,
}

/// Retries granted to every new subscription.
pub const DEFAULT_MAX_RETRIES: u32 = 3;

/// `a` and `b` describe the same subscription.
pub open spec fn same_subscription(a: WebhookSubscription, b: WebhookSubscription) -> bool {
    &&& a.id@ == b.id@
    &&& a.url@ == b.url@
    &&& a.events@.len() == b.events@.len()
    &&& forall|i: int| 0 <= i < a.events@.len() ==> #[trigger] a.events@[i]@ == b.events@[i]@
    &&& a.active == b.active
    &&& a.created_at == b.created_at
    &&& a.retry_count == b.retry_count
    &&& a.max_retries == b.max_retries
}

/// `a` and `b` describe the same delivery.
pub open spec fn same_delivery(a: WebhookDelivery, b: WebhookDelivery) -> bool {
    &&& a.id@ == b.id@
    &&& a.webhook_id@ == b.webhook_id@
    &&& a.event_id@ == b.event_id@
    &&& a.status == b.status
    &&& a.timestamp == b.timestamp
    &&& a.response_code == b.response_code
    &&& (a.error is Some <==> b.error is Some)
    &&& (a.error is Some ==> a.error->0@ == b.error->0@)
}

fn copy_text(s: &String) -> (r: String)
    ensures
        r@ == s@,
{
    s.clone()
}

fn copy_texts(v: &Vec<String>) -> (r: Vec<String>)
    ensures
        r@.len() == v@.len(),
        forall|i: int| 0 <= i < v@.len() ==> #[trigger] r@[i]@ == v@[i]@,
{
    let mut out: Vec<String> = Vec::new();
    let n = v.len();
    for i in 0..n
        invariant
            n == v@.len(),
            out@.len() == i,
            forall|k: int| 0 <= k < i ==> #[trigger] out@[k]@ == v@[k]@,
    {
        out.push(copy_text(&v[i]));
    }
    out
}

impl WebhookSubscription {
    pub fn duplicate(&self) -> (r: Self)
        ensures
            same_subscription(r, *self),
    {
        WebhookSubscription {
            id: copy_text(&self.id),
            url: copy_text(&self.url),
            events: copy_texts(&self.events),
            active: self.active,
            created_at: self.created_at,
            retry_count: self.retry_count,
            max_retries: self.max_retries,
        }
    }
}

impl WebhookDelivery {
    pub fn duplicate(&self) -> (r: Self)
        ensures
            same_delivery(r, *self),
    {
        WebhookDelivery {
            id: copy_text(&self.id),
            webhook_id: copy_text(&self.webhook_id),
            event_id: copy_text(&self.event_id),
            status: self.status,
            timestamp: self.timestamp,
            response_code: self.response_code,
            error: match &self.error {
                Some(e) => Some(copy_text(e)),
                None => None,
            },
        }
    }
}

// ── Text helpers ──────────────────────────────────────────────────────────────

/// `s` begins with `prefix`.
pub open spec fn has_prefix(s: Seq<char>, prefix: Seq<char>) -> bool {
    prefix.len() <= s.len() && s.subrange(0, prefix.len() as int) == prefix
}

/// Whether `s` begins with `prefix`.
pub fn starts_with(s: &str, prefix: &str) -> (r: bool)
    ensures
        r == has_prefix(s@, prefix@),
{
    let n = prefix.unicode_len();
    let m = s.unicode_len();
    if n > m {
        return false;
    }
    for i in 0..n
        invariant
            n == prefix@.len(),
            m == s@.len(),
            n <= m,
            forall|k: int| 0 <= k < i ==> s@[k] == prefix@[k],
    {
        if s.get_char(i) != prefix.get_char(i) {
            assert(s@.subrange(0, n as int)[i as int] != prefix@[i as int]);
            return false;
        }
    }
    assert(s@.subrange(0, n as int) =~= prefix@);
    true
}

/// Whether `a` and `b` hold the same text.
pub fn same_text(a: &str, b: &str) -> (r: bool)
    ensures
        r == (a@ == b@),
{
    if a.unicode_len() != b.unicode_len() {
        return false;
    }
    let r = starts_with(a, b);
    assert(a@ =~= a@.subrange(0, b@.len() as int));
    r
}

/// `url` is an http or https URL.
pub open spec fn is_http_url(url: Seq<char>) -> bool {
    has_prefix(url, "http://"@) || has_prefix(url, "https://"@)
}

/// `events` lists `event_type`.
pub open spec fn lists_event(events: Seq<String>, event_type: Seq<char>) -> bool {
    exists|i: int| 0 <= i < events.len() && #[trigger] events[i]@ == event_type
}

fn lists_event_type(events: &Vec<String>, event_type: &String) -> (r: bool)
    ensures
        r == lists_event(events@, event_type@),
{
    let n = events.len();
    for i in 0..n
        invariant
            n == events@.len(),
            forall|k: int| 0 <= k < i ==> #[trigger] events@[k]@ != event_type@,
    {
        if events[i] == *event_type {
            return true;
        }
    }
    false
}

/// `sub` receives events of type `event_type`.
pub open spec fn receives(sub: WebhookSubscription, event_type: Seq<char>) -> bool {
    sub.active && lists_event(sub.events@, event_type)
}

/// Indices of the subscriptions in `subs` that receive `event_type`, in order.
pub open spec fn recipients(subs: Seq<WebhookSubscription>, event_type: Seq<char>) -> Seq<usize>
    decreases subs.len(),
{
    if subs.len() == 0 {
        Seq::empty()
    } else if receives(subs.last(), event_type) {
        recipients(subs.drop_last(), event_type).push((subs.len() - 1) as usize)
    } else {
        recipients(subs.drop_last(), event_type)
    }
}

/// Index of the first element of `ids` equal to `id`, or `ids.len()`.
pub open spec fn first_with_id(ids: Seq<Seq<char>>, id: Seq<char>) -> int
    decreases ids.len(),
{
    if ids.len() == 0 {
        0
    } else if ids[0] == id {
        0
    } else {
        1 + first_with_id(ids.drop_first(), id)
    }
}

proof fn lemma_recipients_in_bounds(subs: Seq<WebhookSubscription>, event_type: Seq<char>)
    ensures
        forall|k: int|
            0 <= k < recipients(subs, event_type).len() ==> #[trigger] recipients(subs, event_type)[k]
                < subs.len(),
    decreases subs.len(),
{
    if subs.len() > 0 {
        lemma_recipients_in_bounds(subs.drop_last(), event_type);
        let r = recipients(subs.drop_last(), event_type);
        assert forall|k: int|
            0 <= k < recipients(subs, event_type).len() implies #[trigger] recipients(
            subs,
            event_type,
        )[k] < subs.len() by {
            if k < r.len() {
                assert(recipients(subs, event_type)[k] == r[k]);
            }
        }
    }
}

pub open spec fn subscription_ids(subs: Seq<WebhookSubscription>) -> Seq<Seq<char>> {
    subs.map_values(|s: WebhookSubscription| s.id@)
}

pub open spec fn delivery_ids(ds: Seq<WebhookDelivery>) -> Seq<Seq<char>> {
    ds.map_values(|d: WebhookDelivery| d.id@)
}

proof fn lemma_first_with_id(ids: Seq<Seq<char>>, id: Seq<char>, i: int)
    requires
        0 <= i <= ids.len(),
        forall|k: int| 0 <= k < i ==> ids[k] != id,
        i == ids.len() || ids[i] == id,
    ensures
        first_with_id(ids, id) == i,
    decreases ids.len(),
{
    if ids.len() > 0 && i > 0 {
        assert forall|k: int| 0 <= k < i - 1 implies ids.drop_first()[k] != id by {
            assert(ids[k + 1] != id);
        }
        lemma_first_with_id(ids.drop_first(), id, i - 1);
    }
}

// ── The registry ──────────────────────────────────────────────────────────────

/// Subscriptions and the record of deliveries made to them.
pub struct WebhookManager {
    pub subscriptions: Vec<WebhookSubscription>,
    pub deliveries: Vec<WebhookDelivery>,
}

impl WebhookManager {
    pub fn new() -> (m: Self)
        ensures
            m.subscriptions@.len() == 0,
            m.deliveries@.len() == 0,
    {
        WebhookManager { subscriptions: Vec::new(), deliveries: Vec::new() }
    }

    /// Registers a subscription of `url` to `events`, under identifier `id`
    /// and creation time `created_at`.  Refused with `InvalidUrl` unless the
    /// URL starts with `http://` or `https://`.  The new subscription is
    /// active and allows `DEFAULT_MAX_RETRIES` retries.
    pub fn subscribe_with(
        &mut self,
        url: String,
        events: Vec<String>,
        id: String,
        created_at: Timestamp,
    ) -> (r: Result<WebhookSubscription, WebhookError>)
        ensures
            r is Err <==> !is_http_url(url@),
            r is Err ==> r == Err::<WebhookSubscription, WebhookError>(WebhookError::InvalidUrl)
                && final(self).subscriptions@ == old(self).subscriptions@,
            r matches Ok(s) ==> {
                &&& s.id@ == id@
                &&& s.url@ == url@
                &&& s.events@ == events@
                &&& s.active
                &&& s.created_at == created_at
                &&& s.retry_count == 0
                &&& s.max_retries == DEFAULT_MAX_RETRIES
                &&& final(self).subscriptions@.len() == old(self).subscriptions@.len() + 1
                &&& final(self).subscriptions@.drop_last() == old(self).subscriptions@
                &&& same_subscription(final(self).subscriptions@.last(), s)
            },
            final(self).deliveries@ == old(self).deliveries@,
    {
        if !starts_with(url.as_str(), "http://") && !starts_with(url.as_str(), "https://") {
            return Err(WebhookError::InvalidUrl);
        }
        let subscription = WebhookSubscription {
            id,
            url,
            events,
            active: true,
            created_at,
            retry_count: 0,
            max_retries: DEFAULT_MAX_RETRIES,
        };
        self.subscriptions.push(subscription.duplicate());
        assert(self.subscriptions@.drop_last() =~= old(self).subscriptions@);
        Ok(subscription)
    }

    /// Registers a subscription of `url` to `events` under a fresh random
    /// identifier, created now.  Refused with `InvalidUrl` unless the URL
    /// starts with `http://` or `https://`.
    pub fn subscribe(&mut self, url: String, events: Vec<String>) -> (r: Result<
        WebhookSubscription,
        WebhookError,
    >)
        ensures
            r is Err <==> !is_http_url(url@),
            r is Err ==> r == Err::<WebhookSubscription, WebhookError>(WebhookError::InvalidUrl)
                && final(self).subscriptions@ == old(self).subscriptions@,
            r matches Ok(s) ==> {
                &&& is_uuid_v4_text(s.id@)
                &&& is_clock_reading(s.created_at)
                &&& s.url@ == url@
                &&& s.events@ == events@
                &&& s.active
                &&& s.retry_count == 0
                &&& s.max_retries == DEFAULT_MAX_RETRIES
                &&& final(self).subscriptions@.len() == old(self).subscriptions@.len() + 1
                &&& final(self).subscriptions@.drop_last() == old(self).subscriptions@
                &&& same_subscription(final(self).subscriptions@.last(), s)
            },
            final(self).deliveries@ == old(self).deliveries@,
    {
        let id = fresh_identifier();
        let created_at = current_time();
        self.subscribe_with(url, events, id, created_at)
    }

    /// Removes the first subscription with identifier `webhook_id`; refused
    /// with `NotFound` when there is none.
    pub fn unsubscribe(&mut self, webhook_id: &str) -> (r: Result<(), WebhookError>)
        ensures
            ({
                let k = first_with_id(subscription_ids(old(self).subscriptions@), webhook_id@);
                &&& k < old(self).subscriptions@.len() ==> r is Ok
                    && final(self).subscriptions@ == old(self).subscriptions@.remove(k)
                &&& k >= old(self).subscriptions@.len() ==> r is Err
                    && final(self).subscriptions@ == old(self).subscriptions@
            }),
            r is Err ==> r == Err::<(), WebhookError>(WebhookError::NotFound),
            final(self).deliveries@ == old(self).deliveries@,
    {
        let n = self.subscriptions.len();
        let ghost ids = subscription_ids(self.subscriptions@);
        for i in 0..n
            invariant
                n == self.subscriptions@.len(),
                self.subscriptions@ == old(self).subscriptions@,
                self.deliveries@ == old(self).deliveries@,
                ids == subscription_ids(self.subscriptions@),
                forall|k: int| 0 <= k < i ==> ids[k] != webhook_id@,
        {
            if same_text(self.subscriptions[i].id.as_str(), webhook_id) {
                proof {
                    lemma_first_with_id(ids, webhook_id@, i as int);
                }
                self.subscriptions.remove(i);
                return Ok(());
            }
        }
        proof {
            lemma_first_with_id(ids, webhook_id@, n as int);
        }
        Err(WebhookError::NotFound)
    }

    /// Indices of the subscriptions that receive an event of type
    /// `event_type`: the active ones that list it.
    pub fn recipients_of(&self, event_type: &String) -> (r: Vec<usize>)
        ensures
            r@ == recipients(self.subscriptions@, event_type@),
    {
        let mut out: Vec<usize> = Vec::new();
        let n = self.subscriptions.len();
        for i in 0..n
            invariant
                n == self.subscriptions@.len(),
                out@ == recipients(self.subscriptions@.take(i as int), event_type@),
        {
            assert(self.subscriptions@.take(i + 1).drop_last() =~= self.subscriptions@.take(
                i as int,
            ));
            let sub = &self.subscriptions[i];
            if sub.active && lists_event_type(&sub.events, event_type) {
                out.push(i);
            }
        }
        assert(self.subscriptions@.take(n as int) =~= self.subscriptions@);
        out
    }

    /// Records a pending delivery of `event` to each subscription that
    /// receives it, and returns the indices of those subscriptions, in
    /// order, for the host to send the event to.
    pub fn deliver_event(&mut self, event: &WebhookEvent) -> (r: Vec<usize>)
        ensures
            r@ == recipients(old(self).subscriptions@, event.event_type@),
            final(self).subscriptions@ == old(self).subscriptions@,
            final(self).deliveries@.len() == old(self).deliveries@.len() + r@.len(),
            final(self).deliveries@.take(old(self).deliveries@.len() as int)
                == old(self).deliveries@,
            forall|j: int|
                0 <= j < r@.len() ==> {
                    let d = #[trigger] final(self).deliveries@[old(self).deliveries@.len() + j];
                    &&& is_uuid_v4_text(d.id@)
                    &&& is_clock_reading(d.timestamp)
                    &&& d.webhook_id@ == old(self).subscriptions@[r@[j] as int].id@
                    &&& d.event_id@ == event.id@
                    &&& d.status == DeliveryStatus::Pending
                    &&& d.response_code is None
                    &&& d.error is None
                },
    {
        let targets = self.recipients_of(&event.event_type);
        proof {
            lemma_recipients_in_bounds(self.subscriptions@, event.event_type@);
        }
        let n = targets.len();
        let ghost start = self.deliveries@.len();
        for j in 0..n
            invariant
                n == targets@.len(),
                targets@ == recipients(old(self).subscriptions@, event.event_type@),
                self.subscriptions@ == old(self).subscriptions@,
                forall|k: int| 0 <= k < n ==> #[trigger] targets@[k] < self.subscriptions@.len(),
                start == old(self).deliveries@.len(),
                self.deliveries@.len() == start + j,
                self.deliveries@.take(start as int) == old(self).deliveries@,
                forall|k: int|
                    0 <= k < j ==> {
                        let d = #[trigger] self.deliveries@[start + k];
                        &&& is_uuid_v4_text(d.id@)
                    &&& is_clock_reading(d.timestamp)
                        &&& d.webhook_id@ == old(self).subscriptions@[targets@[k] as int].id@
                        &&& d.event_id@ == event.id@
                        &&& d.status == DeliveryStatus::Pending
                        &&& d.response_code is None
                        &&& d.error is None
                    },
        {
            let index = targets[j];
            let delivery = WebhookDelivery {
                id: fresh_identifier(),
                webhook_id: copy_text(&self.subscriptions[index].id),
                event_id: copy_text(&event.id),
                status: DeliveryStatus::Pending,
                timestamp: current_time(),
                response_code: None,
                error: None,
            };
            let ghost before = self.deliveries@;
            self.deliveries.push(delivery);
            assert(self.deliveries@.take(start as int) =~= before.take(start as int));
            assert forall|k: int| 0 <= k < j implies #[trigger] self.deliveries@[start + k] == before[start + k] by {}
        }
        targets
    }
}

impl WebhookManager {
    /// Sets the status, response code and error of the first delivery with
    /// identifier `delivery_id`; nothing changes when there is none.
    pub fn update_delivery(
        &mut self,
        delivery_id: &str,
        status: DeliveryStatus,
        response_code: Option<u16>,
        error: Option<String>,
    )
        ensures
            final(self).subscriptions@ == old(self).subscriptions@,
            ({
                let k = first_with_id(delivery_ids(old(self).deliveries@), delivery_id@);
                let d = old(self).deliveries@[k];
                &&& k >= old(self).deliveries@.len() ==> final(self).deliveries@ == old(self).deliveries@
                &&& k < old(self).deliveries@.len() ==> final(self).deliveries@ == old(self).deliveries@.update(
                    k,
                    WebhookDelivery { status, response_code, error, ..d },
                )
            }),
    {
        let n = self.deliveries.len();
        let ghost ids = delivery_ids(self.deliveries@);
        for i in 0..n
            invariant
                n == self.deliveries@.len(),
                self.deliveries@ == old(self).deliveries@,
                self.subscriptions@ == old(self).subscriptions@,
                ids == delivery_ids(self.deliveries@),
                forall|k: int| 0 <= k < i ==> ids[k] != delivery_id@,
        {
            if same_text(self.deliveries[i].id.as_str(), delivery_id) {
                proof {
                    lemma_first_with_id(ids, delivery_id@, i as int);
                }
                let mut d = self.deliveries.remove(i);
                d.status = status;
                d.response_code = response_code;
                d.error = error;
                self.deliveries.insert(i, d);
                assert(self.deliveries@ =~= old(self).deliveries@.update(
                    i as int,
                    WebhookDelivery { status, response_code, error, ..old(self).deliveries@[i as int] },
                ));
                return;
            }
        }
        proof {
            lemma_first_with_id(ids, delivery_id@, n as int);
        }
    }

    /// Copies of the subscriptions, in order.
    pub fn get_subscriptions(&self) -> (r: Vec<WebhookSubscription>)
        ensures
            r@.len() == self.subscriptions@.len(),
            forall|i: int|
                0 <= i < r@.len() ==> same_subscription(#[trigger] r@[i], self.subscriptions@[i]),
    {
        let mut out: Vec<WebhookSubscription> = Vec::new();
        let n = self.subscriptions.len();
        for i in 0..n
            invariant
                n == self.subscriptions@.len(),
                out@.len() == i,
                forall|k: int|
                    0 <= k < i ==> same_subscription(#[trigger] out@[k], self.subscriptions@[k]),
        {
            out.push(self.subscriptions[i].duplicate());
        }
        out
    }

    /// Copies of the delivery records, in order.
    pub fn get_deliveries(&self) -> (r: Vec<WebhookDelivery>)
        ensures
            r@.len() == self.deliveries@.len(),
            forall|i: int| 0 <= i < r@.len() ==> same_delivery(#[trigger] r@[i], self.deliveries@[i]),
    {
        let mut out: Vec<WebhookDelivery> = Vec::new();
        let n = self.deliveries.len();
        for i in 0..n
            invariant
                n == self.deliveries@.len(),
                out@.len() == i,
                forall|k: int| 0 <= k < i ==> same_delivery(#[trigger] out@[k], self.deliveries@[k]),
        {
            out.push(self.deliveries[i].duplicate());
        }
        out
    }
}

// ── Delivery attempts ─────────────────────────────────────────────────────────

/// What came of one attempt to send a webhook.
pub enum SendOutcome {
    /// The endpoint answered with this HTTP status code.
    Response(u16),
    /// The request failed before any answer, with this message.
    TransportError(String),
}

/// What to record after an attempt, and whether to try again.
pub struct SendStep {
    pub status: DeliveryStatus,
    pub response_code: Option<u16>,
    pub error: Option<String>,
    /// Seconds to wait before the next attempt; `None` stops.
    pub retry_after_secs: Option<u64>,
}

/// An HTTP status code in the success class (2xx).
pub fn status_is_success(code: u16) -> (r: bool)
    ensures
        r == (200 <= code < 300),
{
    200 <= code && code < 300
}

/// 2 to the power `attempt`, the backoff before the next attempt.
fn backoff_secs(attempt: u32) -> (s: u64)
    requires
        attempt < 64,
    ensures
        s == pow2(attempt as nat),
{
    let mut v: u64 = 1;
    let mut i: u32 = 0;
    proof {
        lemma2_to64();
    }
    while i < attempt
        invariant
            i <= attempt < 64,
            v == pow2(i as nat),
            pow2(64) == 0x1_0000_0000_0000_0000,
        decreases attempt - i,
    {
        proof {
            lemma_pow2_unfold((i + 1) as nat);
            lemma_pow2_strictly_increases((i + 1) as nat, 64);
        }
        v = v * 2;
        i = i + 1;
    }
    v
}

/// The decision after attempt number `attempt` (counting from 1) of a
/// subscription allowing `max_retries` attempts.
///
/// An answer ends the delivery, as a success for a 2xx code and a failure
/// otherwise.  A transport error is retried after 2^attempt seconds while
/// `attempt < max_retries`, recorded as retrying except on the attempt just
/// before the last, which is recorded as failed; once attempts run out, the
/// delivery fails for good.
pub fn send_step(attempt: u32, max_retries: u32, outcome: SendOutcome) -> (step: SendStep)
    requires
        outcome is TransportError && attempt < max_retries ==> attempt < 64,
    ensures
        match outcome {
            SendOutcome::Response(code) => {
                &&& step.status == (if 200 <= code < 300 {
                    DeliveryStatus::Success
                } else {
                    DeliveryStatus::Failed
                })
                &&& step.response_code == Some(code)
                &&& step.error is None
                &&& step.retry_after_secs is None
            },
            SendOutcome::TransportError(e) => {
                &&& step.response_code is None
                &&& step.error == Some(e)
                &&& if attempt < max_retries {
                    &&& step.status == (if attempt < max_retries - 1 {
                        DeliveryStatus::Retrying
                    } else {
                        DeliveryStatus::Failed
                    })
                    &&& step.retry_after_secs == Some(pow2(attempt as nat) as u64)
                } else {
                    &&& step.status == DeliveryStatus::Failed
                    &&& step.retry_after_secs is None
                }
            },
        },
{
    match outcome {
        SendOutcome::Response(code) => {
            let status = if status_is_success(code) {
                DeliveryStatus::Success
            } else {
                DeliveryStatus::Failed
            };
            SendStep { status, response_code: Some(code), error: None, retry_after_secs: None }
        },
        SendOutcome::TransportError(e) => {
            if attempt < max_retries {
                let status = if attempt < max_retries - 1 {
                    DeliveryStatus::Retrying
                } else {
                    DeliveryStatus::Failed
                };
                SendStep {
                    status,
                    response_code: None,
                    error: Some(e),
                    retry_after_secs: Some(backoff_secs(attempt)),
                }
            } else {
                SendStep {
                    status: DeliveryStatus::Failed,
                    response_code: None,
                    error: Some(e),
                    retry_after_secs: None,
                }
            }
        },
    }
}

} // verus!
