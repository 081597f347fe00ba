//! The control panel's notifications: the newest first, and not too many.

use std::collections::VecDeque;

use vstd::prelude::*;

verus! {

/// How many notifications are kept.
pub const MAX_GUI_NOTIFICATIONS: usize = 24;

/// How urgent a notification is.
#[derive(Clone, Copy, PartialEq, Eq, Structural, Debug)]
pub enum NotificationUrgency {
    Low,
    Normal,
    High,
}

/// The label of an urgency.
pub fn urgency_label(urgency: NotificationUrgency) -> (label: &'static str)
    ensures
        label@ == (match urgency {
            NotificationUrgency::Low => "Low"@,
            NotificationUrgency::Normal => "Normal"@,
            NotificationUrgency::High => "High"@,
        }),
{
    match urgency {
        NotificationUrgency::Low => "Low",
        NotificationUrgency::Normal => "Normal",
        NotificationUrgency::High => "High",
    }
}

/// A notification.
#[derive(Debug, Clone, PartialEq, Eq)]
pub struct GuiNotification {
    pub id: u64,
    pub urgency: NotificationUrgency,
    pub title: String,
    pub body: String,
}

/// What a notification says.
#[verifier::ext_equal]
pub ghost struct Note {
    pub id: u64,
    pub urgency: NotificationUrgency,
    pub title: Seq<char>,
    pub body: Seq<char>,
}

impl View for GuiNotification {
    type V = Note;

    open spec fn view(&self) -> Note {
        Note { id: self.id, urgency: self.urgency, title: self.title@, body: self.body@ }
    }
}

/// What notifications say.
pub open spec fn notes(notifications: Seq<GuiNotification>) -> Seq<Note> {
    notifications.map_values(|n: GuiNotification| n@)
}

/// Notifications with one more: it comes first, and the oldest leave.
pub open spec fn noted(old_notes: Seq<Note>, note: Note) -> Seq<Note> {
    let all = seq![note] + old_notes;
    all.take(
        if all.len() <= MAX_GUI_NOTIFICATIONS {
            all.len() as int
        } else {
            MAX_GUI_NOTIFICATIONS as int
        },
    )
}

/// The next identifier, as long as there is one.
pub open spec fn next_note_id(id: u64) -> u64 {
    if id < u64::MAX {
        (id + 1) as u64
    } else {
        id
    }
}

/// Records a notification.
pub fn record_notification(
    notifications: &mut VecDeque<GuiNotification>,
    next_id: &mut u64,
    urgency: NotificationUrgency,
    title: &str,
    body: &str,
)
    ensures
        notes(final(notifications)@) == noted(
            notes(old(notifications)@),
            (Note { id: *old(next_id), urgency, title: title@, body: body@ }),
        ),
        *final(next_id) == next_note_id(*old(next_id)),
{
    let notification = GuiNotification {
        id: *next_id,
        urgency,
        title: title.to_owned(),
        body: body.to_owned(),
    };
    let ghost note = notification@;
    let ghost before = notes(notifications@);
    notifications.push_front(notification);
    if *next_id < u64::MAX {
        *next_id = *next_id + 1;
    }
    let ghost all = seq![note] + before;
    assert(notes(notifications@) =~= all);
    assert(all.take(all.len() as int) =~= all);
    while notifications.len() > MAX_GUI_NOTIFICATIONS
        invariant
            notifications@.len() <= all.len(),
            notifications@.len() == all.len() || notifications@.len() >= MAX_GUI_NOTIFICATIONS,
            notes(notifications@) == all.take(notifications@.len() as int),
        decreases notifications@.len(),
    {
        let ghost shown = notes(notifications@);
        let _ = notifications.pop_back();
        assert(notes(notifications@) =~= shown.take(notifications@.len() as int));
        assert(notes(notifications@) =~= all.take(notifications@.len() as int));
    }
}

/// The notifications of a panel that has just opened.
pub fn initial_notifications() -> (notifications: VecDeque<GuiNotification>)
    ensures
        notes(notifications@) == seq![Note {
            id: 0,
            urgency: NotificationUrgency::Low,
            title: "GUI ready"@,
            body: "NexKVM control panel is ready"@,
        }],
{
    let mut notifications: VecDeque<GuiNotification> = VecDeque::new();
    let mut next_id: u64 = 0;
    assert(notes(notifications@) =~= Seq::empty());
    record_notification(
        &mut notifications,
        &mut next_id,
        NotificationUrgency::Low,
        "GUI ready",
        "NexKVM control panel is ready",
    );
    assert(notes(notifications@) =~= seq![Note {
        id: 0,
        urgency: NotificationUrgency::Low,
        title: "GUI ready"@,
        body: "NexKVM control panel is ready"@,
    }]);
    notifications
}

/// Recording keeps the newest notification first, the others in their order, and
/// the number bounded.
pub proof fn law_the_newest_notifications_are_kept(old_notes: Seq<Note>, note: Note, i: int)
    requires
        0 <= i < noted(old_notes, note).len(),
    ensures
        noted(old_notes, note).len() <= MAX_GUI_NOTIFICATIONS,
        noted(old_notes, note)[0] == note,
        i > 0 ==> noted(old_notes, note)[i] == old_notes[i - 1],
{
}

/// How many of the first notifications are worth reading.
pub open spec fn unread_among(notes: Seq<Note>, n: int) -> nat
    decreases n,
{
    if n <= 0 {
        0
    } else {
        unread_among(notes, n - 1) + if notes[n - 1].urgency != NotificationUrgency::Low {
            1nat
        } else {
            0nat
        }
    }
}

/// How many notifications are worth reading.
pub fn unread_count(notifications: &VecDeque<GuiNotification>) -> (count: usize)
    ensures
        count == unread_among(notes(notifications@), notifications@.len() as int),
{
    let mut count: usize = 0;
    let mut i: usize = 0;
    while i < notifications.len()
        invariant
            i <= notifications@.len(),
            count == unread_among(notes(notifications@), i as int),
            count <= i,
        decreases notifications@.len() - i,
    {
        if notifications[i].urgency != NotificationUrgency::Low {
            count += 1;
        }
        i += 1;
    }
    count
}

/// The panel's status line and its notifications.
#[derive(Debug)]
pub struct Feed {
    pub status: String,
    pub notifications: VecDeque<GuiNotification>,
    pub next_id: u64,
}

/// What the feed shows.
#[verifier::ext_equal]
pub ghost struct FeedFacts {
    pub status: Seq<char>,
    pub notes: Seq<Note>,
    pub next_id: u64,
}

impl View for Feed {
    type V = FeedFacts;

    open spec fn view(&self) -> FeedFacts {
        FeedFacts {
            status: self.status@,
            notes: notes(self.notifications@),
            next_id: self.next_id,
        }
    }
}

impl FeedFacts {
    /// The feed after something was told.
    pub open spec fn told(
        self,
        urgency: NotificationUrgency,
        title: Seq<char>,
        body: Seq<char>,
    ) -> FeedFacts {
        FeedFacts {
            status: body,
            notes: noted(self.notes, Note { id: self.next_id, urgency, title, body }),
            next_id: next_note_id(self.next_id),
        }
    }
}

/// The feed of a panel that has just opened.
pub open spec fn opened_feed() -> FeedFacts {
    FeedFacts {
        status: "Ready"@,
        notes: seq![Note {
            id: 0,
            urgency: NotificationUrgency::Low,
            title: "GUI ready"@,
            body: "NexKVM control panel is ready"@,
        }],
        next_id: 1,
    }
}

impl Feed {
    /// The feed of a panel that has just opened.
    pub fn open() -> (feed: Self)
        ensures
            feed@ == opened_feed(),
    {
        Feed {
            status: "Ready".to_owned(),
            notifications: initial_notifications(),
            next_id: 1,
        }
    }

    /// Sets the status and records it as a notification.
    pub fn set_status(&mut self, urgency: NotificationUrgency, title: &str, body: &str)
        ensures
            final(self)@ == old(self)@.told(urgency, title@, body@),
    {
        self.status = body.to_owned();
        record_notification(&mut self.notifications, &mut self.next_id, urgency, title, body);
    }

    /// Forgets the notifications, and says so.
    pub fn clear(&mut self)
        ensures
            final(self)@ == (FeedFacts { notes: Seq::empty(), ..old(self)@ }).told(
                NotificationUrgency::Low,
                "Notifications cleared"@,
                "Notification center cleared"@,
            ),
    {
        self.notifications.clear();
        assert(notes(self.notifications@) =~= Seq::empty());
        self.set_status(
            NotificationUrgency::Low,
            "Notifications cleared",
            "Notification center cleared",
        );
    }
}

/// A new notification displaces none before there is no more room, and only the oldest
/// one then.
pub proof fn law_notifications_stay_while_there_is_room(
    old_notes: Seq<Note>,
    note: Note,
    i: int,
)
    requires
        0 <= i < old_notes.len(),
        i < 23,
    ensures
        noted(old_notes, note).len() == (if old_notes.len() < 24 {
            old_notes.len() + 1
        } else {
            24
        }),
        noted(old_notes, note).first() == note,
        noted(old_notes, note)[i + 1] == old_notes[i],
{
}

/// Notifications get numbers that count up and stop at the last one.
pub proof fn law_notification_numbers_count_up(id: u64)
    ensures
        id < u64::MAX ==> next_note_id(id) == id + 1,
        next_note_id(u64::MAX) == u64::MAX,
{
}

/// What is told becomes the status and the newest notification, with the number that
/// was next; the number goes on, and what was told before follows.
pub proof fn law_what_is_told_is_shown(
    feed: FeedFacts,
    urgency: NotificationUrgency,
    title: Seq<char>,
    body: Seq<char>,
)
    ensures
        feed.told(urgency, title, body).status == body,
        feed.told(urgency, title, body).notes.len() > 0,
        feed.told(urgency, title, body).notes[0].id == feed.next_id,
        feed.told(urgency, title, body).notes[0].urgency == urgency,
        feed.told(urgency, title, body).notes[0].title == title,
        feed.told(urgency, title, body).notes[0].body == body,
        feed.notes.len() < 24 ==> feed.told(urgency, title, body).notes.drop_first() == feed.notes,
        feed.next_id < u64::MAX ==> feed.told(urgency, title, body).next_id == feed.next_id + 1,
{
    if feed.notes.len() < 24 {
        assert(feed.told(urgency, title, body).notes.drop_first() =~= feed.notes);
    }
}

/// A notification counts as unread unless its urgency is low, wherever it stands.
pub proof fn law_every_urgent_notification_counts(notes: Seq<Note>)
    ensures
        unread_among(notes, notes.len() as int) == notes.filter(
            |note: Note|
                note.urgency == NotificationUrgency::Normal || note.urgency
                    == NotificationUrgency::High,
        ).len(),
{
    lemma_unread(notes, notes.len() as int);
    assert(notes.take(notes.len() as int) =~= notes);
}

proof fn lemma_unread(notes: Seq<Note>, n: int)
    requires
        0 <= n <= notes.len(),
    ensures
        unread_among(notes, n) == notes.take(n).filter(
            |note: Note|
                note.urgency == NotificationUrgency::Normal || note.urgency
                    == NotificationUrgency::High,
        ).len(),
    decreases n,
{
    reveal(Seq::filter);
    if n > 0 {
        lemma_unread(notes, n - 1);
        assert(notes.take(n).drop_last() =~= notes.take(n - 1));
        assert(notes.take(n).last() == notes[n - 1]);
    }
}

/// A panel opens ready, with one notification that does not count as unread.
pub proof fn law_feeds_open_ready()
    ensures
        opened_feed().status == "Ready"@,
        opened_feed().notes.len() == 1,
        opened_feed().notes[0].id == 0,
        opened_feed().notes[0].body == "NexKVM control panel is ready"@,
        unread_among(opened_feed().notes, 1) == 0,
        opened_feed().next_id == 1,
{
    reveal_with_fuel(unread_among, 2);
}

} // verus!
