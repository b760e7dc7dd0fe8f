//! Notifications: what is handed to the notification service for a
//! notice, and how a notification takes the place of the one before it.

use crate::components::components::{Notice, NoticeView};
use crate::config::CurrentState;
use vstd::prelude::*;
use vstd::string::StringExecFns;

verus! {

/// How pressing a notification is.
#[derive(Clone, Copy, Debug, PartialEq, Eq, Structural)]
pub enum Urgency {
    Low,
    Normal,
    Critical,
}

/// The sender of the notifications of one component. Each notification
/// takes the place of the one that the component sent before.
#[derive(Debug)]
pub struct Notifier {
    /// The name of the state that holds the number of the last notification.
    pub logger: String,
}

/// What is handed to the notification service.
#[derive(Debug)]
pub struct Notification {
    pub summary: String,
    pub body: String,
    pub urgency: Urgency,
    /// The colour of the frame: that of the focused window's border.
    pub frame_color: String,
    /// The level to draw as a bar.
    pub value: Option<u32>,
    /// The number of the notification whose place this one takes.
    pub replaces: Option<u32>,
}

/// The mathematical value of a [`Notification`].
pub struct NotificationView {
    pub summary: Seq<char>,
    pub body: Seq<char>,
    pub urgency: Urgency,
    pub frame_color: Seq<char>,
    pub value: Option<u32>,
    pub replaces: Option<u32>,
}

impl View for Notification {
    type V = NotificationView;

    open spec fn view(&self) -> NotificationView {
        NotificationView {
            summary: self.summary@,
            body: self.body@,
            urgency: self.urgency,
            frame_color: self.frame_color@,
            value: self.value,
            replaces: self.replaces,
        }
    }
}

/// The colour of a frame for the border colour `color`: a hash sign, the
/// colour, and `ee` for its opacity.
pub open spec fn spec_frame_color(color: Seq<char>) -> Seq<char> {
    "#"@ + color + "ee"@
}

/// What is handed to the notification service for `notice`. Nothing is
/// shown while no compositor runs, that is, while there is no state of one.
pub open spec fn spec_notification(
    notice: NoticeView,
    urgency: Option<Urgency>,
    color: Option<Seq<char>>,
    last: Option<u32>,
) -> Option<NotificationView> {
    match color {
        None => None,
        Some(color) => Some(
            NotificationView {
                summary: notice.summary,
                body: notice.body,
                urgency: match urgency {
                    Some(u) => u,
                    None => Urgency::Normal,
                },
                frame_color: spec_frame_color(color),
                value: notice.value,
                replaces: last,
            },
        ),
    }
}

impl Notifier {
    /// The sender of the notifications of the component `name`.
    pub fn new(name: &str) -> (res: Self)
        ensures
            res.logger@ == name@ + ".id"@,
    {
        let mut logger = name.to_owned();
        logger.append(".id");
        Notifier { logger }
    }

    /// What is handed to the notification service for `notice`. `state` is
    /// the state of the running compositor, where one runs; `last` is the
    /// number of the notification sent before, where one was.
    pub fn send(
        &self,
        notice: Notice,
        urgency: Option<Urgency>,
        state: Option<&CurrentState>,
        last: Option<u32>,
    ) -> (res: Option<Notification>)
        ensures
            option_notification_view(res) == spec_notification(
                notice@,
                urgency,
                match state {
                    Some(s) => Some(s.color@),
                    None => None,
                },
                last,
            ),
    {
        match state {
            None => None,
            Some(state) => {
                let mut frame_color = String::from_str("#");
                frame_color.append(state.color.as_str());
                frame_color.append("ee");
                Some(
                    Notification {
                        summary: notice.summary,
                        body: notice.body,
                        urgency: match urgency {
                            Some(u) => u,
                            None => Urgency::Normal,
                        },
                        frame_color,
                        value: notice.value,
                        replaces: last,
                    },
                )
            },
        }
    }
}

/// The view of a notification that may be missing.
pub open spec fn option_notification_view(n: Option<Notification>) -> Option<NotificationView> {
    match n {
        Some(n) => Some(n@),
        None => None,
    }
}

} // verus!
