use std::collections::HashMap;
use vstd::prelude::*;

verus! {

broadcast use vstd::std_specs::hash::group_hash_axioms;

/// How a message to the player looks.
#[derive(Clone, Copy, Debug, PartialEq, Eq, Structural)]
pub enum MessageKind {
    Info,
    Success,
    Warning,
}

/// A message to the player: its title, its text, how it looks, and its icon.
pub struct MessageItem {
    pub title: String,
    pub text: String,
    pub kind: MessageKind,
    pub icon: Option<String>,
}

impl MessageItem {
    /// A message with the given parts.
    pub fn new(title: String, text: String, kind: MessageKind, icon: Option<String>) -> (r: MessageItem)
        ensures
            r == (MessageItem { title, text, kind, icon }),
    {
        MessageItem { title, text, kind, icon }
    }
}

/// The messages shown to the player, each under the number it was given
/// (numbers count up from one), and whether the browser may show them as
/// notifications too.
pub struct MessageList {
    pub idx: usize,
    pub messages: HashMap<usize, MessageItem>,
    pub notifications_allowed: bool,
}

/// What happens to the list: a message is closed, one is added, the browser
/// allowed notifications, or every message goes.
pub enum MessagesMsg {
    Close(usize),
    AddMessage(MessageItem),
    NotificationsGranted,
    Clear,
}

impl MessageList {
    /// No message, and notifications as the browser allows them.
    pub fn new(notifications_allowed: bool) -> (r: MessageList)
        ensures
            r.idx == 0,
            r.messages@ == Map::<usize, MessageItem>::empty(),
            r.notifications_allowed == notifications_allowed,
    {
        MessageList { idx: 0, messages: HashMap::new(), notifications_allowed }
    }

    /// Handles a message of the list. It returns whether the list is drawn
    /// again, and for an added message, where notifications are allowed, the
    /// title and text of the notification to show. A closed message is drawn
    /// away only where it was there.
    pub fn step(&mut self, msg: MessagesMsg) -> (r: (bool, Option<(String, String)>))
        requires
            msg is AddMessage ==> old(self).idx < usize::MAX,
        ensures
            match msg {
                MessagesMsg::Close(i) => {
                    &&& r.0 == old(self).messages@.contains_key(i)
                    &&& r.1 is None
                    &&& final(self).messages@ == old(self).messages@.remove(i)
                    &&& final(self).idx == old(self).idx
                    &&& final(self).notifications_allowed == old(self).notifications_allowed
                },
                MessagesMsg::AddMessage(m) => {
                    &&& r.0
                    &&& final(self).idx == old(self).idx + 1
                    &&& final(self).messages@ == old(self).messages@.insert(final(self).idx, m)
                    &&& final(self).notifications_allowed == old(self).notifications_allowed
                    &&& match r.1 {
                        Some((t, x)) => old(self).notifications_allowed && t@ == m.title@ && x@ == m.text@,
                        None => !old(self).notifications_allowed,
                    }
                },
                MessagesMsg::NotificationsGranted => {
                    &&& !r.0
                    &&& r.1 is None
                    &&& final(self).notifications_allowed
                    &&& final(self).messages@ == old(self).messages@
                    &&& final(self).idx == old(self).idx
                },
                MessagesMsg::Clear => {
                    &&& r.0
                    &&& r.1 is None
                    &&& final(self).messages@ == Map::<usize, MessageItem>::empty()
                    &&& final(self).idx == old(self).idx
                    &&& final(self).notifications_allowed == old(self).notifications_allowed
                },
            },
    {
        match msg {
            MessagesMsg::Close(i) => {
                let removed = self.messages.remove(&i);
                (removed.is_some(), None)
            },
            MessagesMsg::AddMessage(m) => {
                self.idx = self.idx + 1;
                let notification = if self.notifications_allowed {
                    Some((m.title.clone(), m.text.clone()))
                } else {
                    None
                };
                self.messages.insert(self.idx, m);
                (true, notification)
            },
            MessagesMsg::NotificationsGranted => {
                self.notifications_allowed = true;
                (false, None)
            },
            MessagesMsg::Clear => {
                self.messages.clear();
                (true, None)
            },
        }
    }
}

} // verus!
