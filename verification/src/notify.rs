//! The data of desktop notifications: what a notification holds, how urgent
//! it is, and when it leaves the screen.

use vstd::prelude::*;

verus! {

/// Longest time a notification stays on screen, in seconds.
pub const MAX_DURATION: u128 = 10;

/// How urgent a notification is.
#[derive(Clone, Copy, Debug, PartialEq, Eq, Hash, PartialOrd, Ord)]
pub enum Urgency {
    Low,
    Normal,
    Critical,
}

impl Default for Urgency {
    fn default() -> (urgency: Urgency)
        ensures
            urgency == Urgency::Normal,
    {
        Urgency::Normal
    }
}

impl Urgency {
    /// The urgency's number on the bus: 0, 1 or 2.
    pub open spec fn spec_level(self) -> u8 {
        match self {
            Urgency::Low => 0,
            Urgency::Normal => 1,
            Urgency::Critical => 2,
        }
    }

    /// The urgency's number on the bus: 0, 1 or 2.
    #[verifier::when_used_as_spec(spec_level)]
    pub fn level(self) -> (level: u8)
        ensures
            level == self.spec_level(),
    {
        match self {
            Urgency::Low => 0,
            Urgency::Normal => 1,
            Urgency::Critical => 2,
        }
    }

    /// The urgency with the given number; `None` for a number above 2.
    pub fn from_level(level: u8) -> (urgency: Option<Urgency>)
        ensures
            match urgency {
                Some(u) => u.spec_level() == level,
                None => level > 2,
            },
    {
        if level == 0 {
            Some(Urgency::Low)
        } else if level == 1 {
            Some(Urgency::Normal)
        } else if level == 2 {
            Some(Urgency::Critical)
        } else {
            None
        }
    }
}

/// Where on screen a notification is asked to appear.
#[derive(Debug, Clone, Copy, PartialEq, Eq)]
pub struct Position {
    pub x: i32,
    pub y: i32,
}

/// Raw image of a notification: width, height, row stride, whether there is
/// an alpha channel, bits per sample, channels, and the pixel bytes.
#[derive(Clone, Debug, PartialEq, Eq)]
pub struct ImageData(pub i32, pub i32, pub i32, pub bool, pub i32, pub i32, pub Vec<u8>);

/// The hints a sender attaches to a notification.
#[derive(Debug, Clone, PartialEq, Eq)]
pub struct NotificationHints {
    pub sender_pid: i64,
    pub action_icons: Option<bool>,
    pub category: Option<String>,
    pub desktop_entry: Option<String>,
    pub image_path: Option<String>,
    pub sound_file: Option<String>,
    pub sound_name: Option<String>,
    pub transient: Option<bool>,
    pub urgency: Option<Urgency>,
    pub suppress_sound: Option<bool>,
    pub image_data: Option<(i32, i32, i32, bool, i32, i32, Vec<u8>)>,
}

/// When a notification is due to leave the screen.
#[derive(Clone, Copy, Debug, PartialEq, Eq)]
pub struct NotifSchedTimer {
    /// Unix time in milliseconds at which the notification is hidden.
    pub until: u128,
    /// Time on screen, in seconds.
    pub duration: u128,
}

/// The time on screen that is granted for a wish of `duration` seconds.
pub open spec fn granted_duration(duration: nat) -> nat {
    if duration < MAX_DURATION {
        duration
    } else {
        MAX_DURATION as nat
    }
}

impl Default for NotifSchedTimer {
    fn default() -> (timer: NotifSchedTimer)
        ensures
            timer.until == 0,
            timer.duration == 0,
    {
        NotifSchedTimer { until: 0, duration: 0 }
    }
}

impl NotifSchedTimer {
    /// A timer that starts at `now` (Unix time in milliseconds) and runs for
    /// the longest time allowed.
    pub fn new(now: u128) -> (timer: NotifSchedTimer)
        requires
            now + MAX_DURATION * 1000 <= u128::MAX,
        ensures
            timer.until == now + MAX_DURATION * 1000,
            timer.duration == MAX_DURATION,
    {
        NotifSchedTimer { until: now + MAX_DURATION * 1000, duration: MAX_DURATION }
    }

    /// A timer that starts at `now` (Unix time in milliseconds) and runs for
    /// `duration` seconds, or for the longest time allowed if that is less.
    pub fn with_duration_secs(now: u128, duration: u128) -> (timer: NotifSchedTimer)
        requires
            now + MAX_DURATION * 1000 <= u128::MAX,
        ensures
            timer.duration == granted_duration(duration as nat),
            timer.until == now + granted_duration(duration as nat) * 1000,
    {
        let duration = if duration < MAX_DURATION {
            duration
        } else {
            MAX_DURATION
        };
        NotifSchedTimer { until: now + duration * 1000, duration }
    }

    /// Whether the timer has run out at `now` (Unix time in milliseconds).
    pub fn is_over(&self, now: u128) -> (over: bool)
        ensures
            over == (now >= self.until),
    {
        now >= self.until
    }
}

/// A timer never runs longer than the longest time allowed, and one that
/// started at `now` is over exactly from its deadline on.
pub proof fn lemma_timer_is_bounded(now: u128, duration: u128, later: u128)
    requires
        now + MAX_DURATION * 1000 <= u128::MAX,
    ensures
        granted_duration(duration as nat) <= MAX_DURATION,
        now + granted_duration(duration as nat) * 1000 <= now + MAX_DURATION * 1000,
        later >= now + MAX_DURATION * 1000 ==> later >= now + granted_duration(duration as nat)
            * 1000,
{
}

/// One notification.
#[derive(Clone, Debug, PartialEq, Eq)]
pub struct Notification {
    pub title: String,
    pub body: String,
    pub icon: Option<String>,
    pub urgency: Urgency,
    pub id: u32,
    pub sched: NotifSchedTimer,
    pub image_data: Option<ImageData>,
}

impl Default for Notification {
    fn default() -> (notification: Notification)
        ensures
            notification.title@ == Seq::<char>::empty(),
            notification.body@ == Seq::<char>::empty(),
            notification.icon is None,
            notification.urgency == Urgency::Normal,
            notification.id == 0,
            notification.sched == (NotifSchedTimer { until: 0, duration: 0 }),
            notification.image_data is None,
    {
        Notification {
            title: String::new(),
            body: String::new(),
            icon: None,
            urgency: Urgency::Normal,
            id: 0,
            sched: NotifSchedTimer { until: 0, duration: 0 },
            image_data: None,
        }
    }
}

/// What happens to the stack of notifications on screen.
#[derive(Debug, Clone, PartialEq, Eq)]
pub enum NotifStackEvent {
    /// The notification with this id was closed.
    Closed(u32),
    Added(Notification),
}

/// The notification service as senders see it on the bus.
#[derive(Debug, Clone, Copy, PartialEq, Eq)]
pub struct NotificationsServer;

impl NotificationsServer {
    /// What the service can do: show actions, and show body text.
    pub fn get_capabilities(&self) -> (capabilities: Vec<String>)
        ensures
            capabilities@.len() == 2,
            capabilities@[0]@ == "actions"@,
            capabilities@[1]@ == "body"@,
    {
        vec!["actions".to_owned(), "body".to_owned()]
    }
}

/// Height of a notification's window.
pub const WINDOW_HEIGHT: usize = 100;

/// Distance of the first notification from the top of the screen.
pub const TOP_OFFSET: usize = 15;

/// The top margin of the notification at position `index` on screen: one
/// window height and a gap of 50 for every notification above it, below the
/// top offset.
pub fn top_margin(index: usize) -> (margin: usize)
    requires
        (WINDOW_HEIGHT + 50) * index + TOP_OFFSET <= usize::MAX,
    ensures
        margin == (WINDOW_HEIGHT + 50) * index + TOP_OFFSET,
{
    (WINDOW_HEIGHT + 50) * index + TOP_OFFSET
}

/// The position of the first notification with this id, or the length
/// where there is none.
pub open spec fn position_of_id(stack: Seq<Notification>, id: u32) -> int
    decreases stack.len(),
{
    if stack.len() == 0 {
        0
    } else if stack[0].id == id {
        0
    } else {
        1 + position_of_id(stack.skip(1), id)
    }
}

/// The position of the first notification whose time is over at `now`, or
/// the length where there is none.
pub open spec fn position_of_expired(stack: Seq<Notification>, now: u128) -> int
    decreases stack.len(),
{
    if stack.len() == 0 {
        0
    } else if now >= stack[0].sched.until {
        0
    } else {
        1 + position_of_expired(stack.skip(1), now)
    }
}

/// No two notifications have the same id.
pub open spec fn distinct_ids(stack: Seq<Notification>) -> bool {
    forall|i: int, j: int|
        0 <= i < j < stack.len() ==> (#[trigger] stack[i]).id != (#[trigger] stack[j]).id
}

/// `position_of_id` is a position within the stack or its length; before it
/// no notification has the id, and at it, if within, the notification has.
pub proof fn lemma_position_of_id(stack: Seq<Notification>, id: u32)
    ensures
        0 <= position_of_id(stack, id) <= stack.len(),
        forall|k: int| 0 <= k < position_of_id(stack, id) ==> (#[trigger] stack[k]).id != id,
        position_of_id(stack, id) < stack.len() ==> stack[position_of_id(stack, id)].id == id,
    decreases stack.len(),
{
    if stack.len() > 0 && stack[0].id != id {
        let rest = stack.skip(1);
        lemma_position_of_id(rest, id);
        assert forall|k: int| 0 <= k < position_of_id(stack, id) implies (#[trigger] stack[k]).id
            != id by {
            if k > 0 {
                assert(stack[k] == rest[k - 1]);
            }
        }
        if position_of_id(rest, id) < rest.len() {
            assert(rest[position_of_id(rest, id)] == stack[position_of_id(rest, id) + 1]);
        }
    }
}

/// `position_of_expired` is a position within the stack or its length;
/// before it no notification's time is over, and at it, if within, the
/// notification's time is.
pub proof fn lemma_position_of_expired(stack: Seq<Notification>, now: u128)
    ensures
        0 <= position_of_expired(stack, now) <= stack.len(),
        forall|k: int|
            0 <= k < position_of_expired(stack, now) ==> now < (#[trigger] stack[k]).sched.until,
        position_of_expired(stack, now) < stack.len() ==> now >= stack[position_of_expired(
            stack,
            now,
        )].sched.until,
    decreases stack.len(),
{
    if stack.len() > 0 && now < stack[0].sched.until {
        let rest = stack.skip(1);
        lemma_position_of_expired(rest, now);
        assert forall|k: int| 0 <= k < position_of_expired(stack, now) implies now < (
        #[trigger] stack[k]).sched.until by {
            if k > 0 {
                assert(stack[k] == rest[k - 1]);
            }
        }
        if position_of_expired(rest, now) < rest.len() {
            assert(rest[position_of_expired(rest, now)] == stack[position_of_expired(rest, now)
                + 1]);
        }
    }
}

/// The notifications on screen, oldest first, each under its own id.
#[derive(Debug, Clone, PartialEq, Eq)]
pub struct NotificationStack {
    shown: Vec<Notification>,
}

impl View for NotificationStack {
    type V = Seq<Notification>;

    closed spec fn view(&self) -> Seq<Notification> {
        self.shown@
    }
}

impl NotificationStack {
    /// No id occurs twice. Every stack made by [`new`](Self::new) is well
    /// formed and stays so.
    pub open spec fn wf(&self) -> bool {
        distinct_ids(self@)
    }

    /// A stack with nothing on screen.
    pub fn new() -> (stack: NotificationStack)
        ensures
            stack.wf(),
            stack@ == Seq::<Notification>::empty(),
    {
        NotificationStack { shown: Vec::new() }
    }

    /// How many notifications are on screen.
    pub fn len(&self) -> (n: usize)
        ensures
            n == self@.len(),
    {
        self.shown.len()
    }

    /// Whether nothing is on screen.
    pub fn is_empty(&self) -> (empty: bool)
        ensures
            empty == (self@.len() == 0),
    {
        self.shown.len() == 0
    }

    /// Takes everything off screen.
    pub fn clear(&mut self)
        ensures
            final(self).wf(),
            final(self)@ == Seq::<Notification>::empty(),
    {
        self.shown.clear();
    }

    /// Where the notification with this id stands.
    fn find(&self, id: u32) -> (at: usize)
        ensures
            at == position_of_id(self@, id),
            at <= self@.len(),
    {
        let mut i: usize = 0;
        proof {
            lemma_position_of_id(self@, id);
        }
        while i < self.shown.len()
            invariant
                i <= self.shown.len(),
                i <= position_of_id(self@, id) <= self@.len(),
                forall|k: int| 0 <= k < position_of_id(self@, id) ==> (#[trigger] self@[k]).id != id,
                position_of_id(self@, id) < self@.len() ==> self@[position_of_id(self@, id)].id
                    == id,
            decreases self.shown.len() - i,
        {
            if self.shown[i].id == id {
                return i;
            }
            i += 1;
        }
        i
    }

    /// The notification with this id, if it is on screen.
    pub fn get(&self, index: u32) -> (found: Option<&Notification>)
        ensures
            match found {
                Some(notification) => {
                    &&& position_of_id(self@, index) < self@.len()
                    &&& *notification == self@[position_of_id(self@, index)]
                    &&& notification.id == index
                },
                None => position_of_id(self@, index) == self@.len(),
            },
    {
        proof {
            lemma_position_of_id(self@, index);
        }
        let at = self.find(index);
        if at < self.shown.len() {
            Some(&self.shown[at])
        } else {
            None
        }
    }

    /// Takes the notification with this id off screen and hands it over;
    /// the others stay as they are. `None`, and nothing changes, where no
    /// notification has the id.
    pub fn remove(&mut self, index: u32) -> (removed: Option<Notification>)
        requires
            old(self).wf(),
        ensures
            final(self).wf(),
            match removed {
                Some(notification) => {
                    &&& position_of_id(old(self)@, index) < old(self)@.len()
                    &&& notification == old(self)@[position_of_id(old(self)@, index)]
                    &&& final(self)@ == old(self)@.remove(position_of_id(old(self)@, index))
                    &&& position_of_id(final(self)@, index) == final(self)@.len()
                },
                None => {
                    &&& position_of_id(old(self)@, index) == old(self)@.len()
                    &&& final(self)@ == old(self)@
                },
            },
    {
        proof {
            lemma_position_of_id(self@, index);
        }
        let at = self.find(index);
        if at < self.shown.len() {
            let notification = self.shown.remove(at);
            proof {
                lemma_remove_keeps_distinct(old(self)@, at as int);
                lemma_absent_after_remove(old(self)@, index);
            }
            Some(notification)
        } else {
            None
        }
    }

    /// Puts a notification on screen, in place of the one that has its id,
    /// if there is one. Gives the number of notifications that were on
    /// screen before, which is where the new one's window goes.
    pub fn add(&mut self, notif: Notification) -> (place: usize)
        requires
            old(self).wf(),
        ensures
            final(self).wf(),
            place == old(self)@.len(),
            final(self)@ == if position_of_id(old(self)@, notif.id) < old(self)@.len() {
                old(self)@.remove(position_of_id(old(self)@, notif.id)).push(notif)
            } else {
                old(self)@.push(notif)
            },
    {
        let place = self.shown.len();
        let ghost id = notif.id;
        let _ = self.remove(notif.id);
        let ghost kept = self@;
        proof {
            lemma_position_of_id(kept, id);
        }
        self.shown.push(notif);
        assert(distinct_ids(self@)) by {
            assert forall|i: int, j: int| 0 <= i < j < self@.len() implies (#[trigger] self@[i]).id
                != (#[trigger] self@[j]).id by {
                if j < kept.len() {
                    assert(self@[i] == kept[i] && self@[j] == kept[j]);
                } else {
                    assert(self@[i] == kept[i]);
                }
            }
        }
        place
    }

    /// Looks for a notification whose time is over at `now` (Unix time in
    /// milliseconds) and takes the oldest such off screen. Gives its id, or
    /// `None`, with nothing changed, where no notification's time is over.
    pub fn poll(&mut self, now: u128) -> (closed: Option<u32>)
        requires
            old(self).wf(),
        ensures
            final(self).wf(),
            match closed {
                Some(id) => {
                    &&& position_of_expired(old(self)@, now) < old(self)@.len()
                    &&& id == old(self)@[position_of_expired(old(self)@, now)].id
                    &&& final(self)@ == old(self)@.remove(position_of_expired(old(self)@, now))
                },
                None => {
                    &&& position_of_expired(old(self)@, now) == old(self)@.len()
                    &&& final(self)@ == old(self)@
                },
            },
    {
        proof {
            lemma_position_of_expired(self@, now);
        }
        let mut i: usize = 0;
        while i < self.shown.len()
            invariant
                i <= self.shown.len(),
                *self == *old(self),
                distinct_ids(self@),
                i <= position_of_expired(self@, now) <= self@.len(),
                forall|k: int|
                    0 <= k < position_of_expired(self@, now) ==> now < (
                    #[trigger] self@[k]).sched.until,
                position_of_expired(self@, now) < self@.len() ==> now >= self@[position_of_expired(
                    self@,
                    now,
                )].sched.until,
            decreases self.shown.len() - i,
        {
            if self.shown[i].sched.is_over(now) {
                let notification = self.shown.remove(i);
                proof {
                    lemma_remove_keeps_distinct(old(self)@, i as int);
                }
                return Some(notification.id);
            }
            i += 1;
        }
        None
    }
}

/// Taking one notification out leaves the ids of the others distinct.
pub proof fn lemma_remove_keeps_distinct(stack: Seq<Notification>, at: int)
    requires
        distinct_ids(stack),
        0 <= at < stack.len(),
    ensures
        distinct_ids(stack.remove(at)),
{
    let rest = stack.remove(at);
    assert forall|i: int, j: int| 0 <= i < j < rest.len() implies (#[trigger] rest[i]).id != (
    #[trigger] rest[j]).id by {
        let a = if i < at {
            i
        } else {
            i + 1
        };
        let b = if j < at {
            j
        } else {
            j + 1
        };
        assert(rest[i] == stack[a] && rest[j] == stack[b]);
    }
}

/// Where ids are distinct, taking out the notification with an id leaves
/// none with that id.
pub proof fn lemma_absent_after_remove(stack: Seq<Notification>, id: u32)
    requires
        distinct_ids(stack),
        position_of_id(stack, id) < stack.len(),
    ensures
        position_of_id(stack.remove(position_of_id(stack, id)), id) == stack.len() - 1,
{
    let at = position_of_id(stack, id);
    let rest = stack.remove(at);
    lemma_position_of_id(stack, id);
    lemma_position_of_id(rest, id);
    let found = position_of_id(rest, id);
    if found < rest.len() {
        let origin = if found < at {
            found
        } else {
            found + 1
        };
        assert(rest[found] == stack[origin]);
        if origin < at {
            assert(stack[origin].id != stack[at].id);
        } else {
            assert(stack[at].id != stack[origin].id);
        }
    }
}

} // verus!
