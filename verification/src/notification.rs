//! The notification daemon's bookkeeping: id allocation, body sanitising,
//! timeout normalisation, and the events handed to the shell.

use vstd::prelude::*;

verus! {

/// A notification as the shell shows it.
#[derive(Debug)]
pub struct NotificationItem {
    pub id: u32,
    pub app_name: String,
    pub summary: String,
    pub body: String,
    pub icon: String,
    pub timeout_ms: u32,
}

/// The abstract value of a [`NotificationItem`].
pub struct NotificationItemView {
    pub id: u32,
    pub app_name: Seq<char>,
    pub summary: Seq<char>,
    pub body: Seq<char>,
    pub icon: Seq<char>,
    pub timeout_ms: u32,
}

impl View for NotificationItem {
    type V = NotificationItemView;

    open spec fn view(&self) -> NotificationItemView {
        NotificationItemView {
            id: self.id,
            app_name: self.app_name@,
            summary: self.summary@,
            body: self.body@,
            icon: self.icon@,
            timeout_ms: self.timeout_ms,
        }
    }
}

impl Clone for NotificationItem {
    fn clone(&self) -> (r: Self)
        ensures
            r == *self,
    {
        NotificationItem {
            id: self.id,
            app_name: self.app_name.clone(),
            summary: self.summary.clone(),
            body: self.body.clone(),
            icon: self.icon.clone(),
            timeout_ms: self.timeout_ms,
        }
    }
}

/// What the daemon tells the shell.
#[derive(Debug)]
pub enum NotificationEvent {
    Add(NotificationItem),
    Close(u32),
}

/// The abstract value of a [`NotificationEvent`].
pub enum NotificationEventView {
    Add(NotificationItemView),
    Close(u32),
}

impl View for NotificationEvent {
    type V = NotificationEventView;

    open spec fn view(&self) -> NotificationEventView {
        match self {
            NotificationEvent::Add(item) => NotificationEventView::Add(item@),
            NotificationEvent::Close(id) => NotificationEventView::Close(*id),
        }
    }
}

impl Clone for NotificationEvent {
    fn clone(&self) -> (r: Self)
        ensures
            r == *self,
    {
        match self {
            NotificationEvent::Add(item) => NotificationEvent::Add(item.clone()),
            NotificationEvent::Close(id) => NotificationEvent::Close(*id),
        }
    }
}

/// What `ammonia::clean` makes of an HTML fragment.
pub uninterp spec fn sanitized_html(src: Seq<char>) -> Seq<char>;

/// `ammonia::clean`: sanitises HTML with ammonia's conservative defaults
/// (disallowed tags such as `script` removed with their content, comments
/// and unsafe attributes stripped). The result is named [`sanitized_html`]
/// of the input; nothing more is stated of it.
#[verifier::external_body]
fn sanitize_html(src: &str) -> (r: String)
    ensures
        r@ == sanitized_html(src@),
{
    ammonia::clean(src)
}

/// The display time of a notification: the requested time when positive,
/// else five seconds.
pub open spec fn timeout_for(expire_timeout: i32) -> u32 {
    if expire_timeout <= 0 {
        5000
    } else {
        expire_timeout as u32
    }
}

/// A positive requested expiry is kept exactly, whatever its size; only a
/// request of zero or less (no expiry asked for) gets the five-second default.
pub proof fn lemma_requested_timeout_kept(t: i32)
    ensures
        t > 0 ==> timeout_for(t) as int == t as int,
        t <= 0 ==> timeout_for(t) == 5000,
{
}

/// The display time (milliseconds) for a requested expiry.
pub fn normalize_timeout(expire_timeout: i32) -> (t: u32)
    ensures
        t == timeout_for(expire_timeout),
{
    if expire_timeout <= 0 {
        5000
    } else {
        expire_timeout as u32
    }
}

/// The id a notification gets: a fresh one (one past the last) when it
/// replaces none (`replaces_id == 0`), else the id it replaces.
pub open spec fn assigned_id(last: u32, replaces_id: u32) -> u32 {
    if replaces_id == 0 {
        (last + 1) as u32
    } else {
        replaces_id
    }
}

/// The id counter of the daemon.
pub struct NotificationServer {
    next_id: u32,
}

impl View for NotificationServer {
    type V = u32;

    /// The last id handed out, zero before the first.
    closed spec fn view(&self) -> u32 {
        self.next_id
    }
}

impl NotificationServer {
    /// A daemon that has handed out no id yet.
    pub fn new() -> (s: Self)
        ensures
            s@ == 0,
    {
        NotificationServer { next_id: 0 }
    }

    /// The last id handed out, zero before the first.
    pub fn last_id(&self) -> (n: u32)
        ensures
            n == self@,
    {
        self.next_id
    }

    /// The capabilities the daemon announces.
    pub fn get_capabilities() -> (c: Vec<String>)
        ensures
            c@.map_values(|s: String| s@) == seq!["body"@, "markup"@],
    {
        let c = vec![String::from_str("body"), String::from_str("markup")];
        assert(c@.map_values(|s: String| s@) =~= seq!["body"@, "markup"@]);
        c
    }

    /// Name, vendor, version and specification version of the daemon.
    pub fn get_server_information() -> (r: (String, String, String, String))
        ensures
            r.0@ == "nacre-notification"@,
            r.1@ == "Nacre"@,
            r.2@ == "0.1.0"@,
            r.3@ == "1.2"@,
    {
        (
            String::from_str("nacre-notification"),
            String::from_str("Nacre"),
            String::from_str("0.1.0"),
            String::from_str("1.2"),
        )
    }

    /// Takes a notification whose body is already sanitised: assigns its id
    /// and returns the id and the event that shows it.
    pub fn notify_sanitized(
        &mut self,
        app_name: String,
        replaces_id: u32,
        app_icon: String,
        summary: String,
        sanitized_body: String,
        expire_timeout: i32,
    ) -> (r: (u32, NotificationEvent))
        requires
            replaces_id == 0 ==> old(self)@ < u32::MAX,
        ensures
            r.0 == assigned_id(old(self)@, replaces_id),
            final(self)@ == if replaces_id == 0 {
                r.0
            } else {
                old(self)@
            },
            r.1@ == NotificationEventView::Add(
                NotificationItemView {
                    id: r.0,
                    app_name: app_name@,
                    summary: summary@,
                    body: sanitized_body@,
                    icon: app_icon@,
                    timeout_ms: timeout_for(expire_timeout),
                },
            ),
    {
        let id = if replaces_id == 0 {
            self.next_id = self.next_id + 1;
            self.next_id
        } else {
            replaces_id
        };
        let item = NotificationItem {
            id,
            app_name,
            summary,
            body: sanitized_body,
            icon: app_icon,
            timeout_ms: normalize_timeout(expire_timeout),
        };
        (id, NotificationEvent::Add(item))
    }

    /// Takes a notification: sanitises its HTML body, assigns its id, and
    /// returns the id and the event that shows it.
    pub fn notify(
        &mut self,
        app_name: String,
        replaces_id: u32,
        app_icon: String,
        summary: String,
        body: String,
        expire_timeout: i32,
    ) -> (r: (u32, NotificationEvent))
        requires
            replaces_id == 0 ==> old(self)@ < u32::MAX,
        ensures
            r.0 == assigned_id(old(self)@, replaces_id),
            final(self)@ == if replaces_id == 0 {
                r.0
            } else {
                old(self)@
            },
            r.1@ == NotificationEventView::Add(
                NotificationItemView {
                    id: r.0,
                    app_name: app_name@,
                    summary: summary@,
                    body: sanitized_html(body@),
                    icon: app_icon@,
                    timeout_ms: timeout_for(expire_timeout),
                },
            ),
    {
        let sanitized = sanitize_html(body.as_str());
        self.notify_sanitized(app_name, replaces_id, app_icon, summary, sanitized, expire_timeout)
    }

    /// The event that closes notification `id`.
    pub fn close_notification(id: u32) -> (e: NotificationEvent)
        ensures
            e@ == NotificationEventView::Close(id),
    {
        NotificationEvent::Close(id)
    }
}

/// The number of requests in `rs` that replace no notification.
pub open spec fn fresh_count(rs: Seq<u32>) -> nat
    decreases rs.len(),
{
    if rs.len() == 0 {
        0
    } else {
        fresh_count(rs.drop_last()) + if rs.last() == 0 {
            1nat
        } else {
            0nat
        }
    }
}

/// The counter after the requests `rs`, starting from `last`: each request
/// that replaces none moves it to the id that request gets.
pub open spec fn counter_after(last: u32, rs: Seq<u32>) -> u32
    decreases rs.len(),
{
    if rs.len() == 0 {
        last
    } else {
        let c = counter_after(last, rs.drop_last());
        if rs.last() == 0 {
            assigned_id(c, 0)
        } else {
            c
        }
    }
}

/// The id that the `k`-th of the requests `rs` gets from a daemon whose
/// counter started at `last`.
pub open spec fn id_at(last: u32, rs: Seq<u32>, k: int) -> u32 {
    assigned_id(counter_after(last, rs.take(k)), rs[k])
}

proof fn lemma_fresh_count_prefix(rs: Seq<u32>, k: int)
    requires
        0 <= k <= rs.len(),
    ensures
        fresh_count(rs.take(k)) <= fresh_count(rs),
    decreases rs.len() - k,
{
    if k < rs.len() {
        lemma_fresh_count_prefix(rs, k + 1);
        assert(rs.take(k + 1).drop_last() =~= rs.take(k));
    } else {
        assert(rs.take(k) =~= rs);
    }
}

proof fn lemma_counter_after(last: u32, rs: Seq<u32>)
    requires
        last + fresh_count(rs) <= u32::MAX,
    ensures
        counter_after(last, rs) == last + fresh_count(rs),
    decreases rs.len(),
{
    if rs.len() > 0 {
        lemma_counter_after(last, rs.drop_last());
    }
}

proof fn lemma_fresh_count_monotone(rs: Seq<u32>, i: int, j: int)
    requires
        0 <= i < j <= rs.len(),
        rs[i] == 0,
    ensures
        fresh_count(rs.take(i)) < fresh_count(rs.take(j)),
    decreases j - i,
{
    assert(rs.take(i + 1).drop_last() =~= rs.take(i));
    if j > i + 1 {
        lemma_fresh_count_monotone(rs, i, j - 1);
        assert(rs.take(j).drop_last() =~= rs.take(j - 1));
    }
}

/// Over any run of requests on which the counter does not overflow, the ids
/// handed to requests that replace no notification strictly increase, so no
/// two of them share an id.
pub proof fn lemma_fresh_ids_increase(last: u32, rs: Seq<u32>, i: int, j: int)
    requires
        last + fresh_count(rs) <= u32::MAX,
        0 <= i < j < rs.len(),
        rs[i] == 0,
        rs[j] == 0,
    ensures
        id_at(last, rs, i) < id_at(last, rs, j),
{
    lemma_fresh_count_monotone(rs, i, j);
    lemma_fresh_count_prefix(rs, i);
    lemma_fresh_count_prefix(rs, j);
    lemma_counter_after(last, rs.take(i));
    lemma_counter_after(last, rs.take(j));
    assert(rs.take(j + 1).drop_last() =~= rs.take(j));
    lemma_fresh_count_prefix(rs, j + 1);
}

} // verus!
