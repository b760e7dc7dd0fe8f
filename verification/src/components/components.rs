//! What the device controllers share: the program a request asks to run,
//! and the notification that announces a state.

use crate::text::{decimal, spec_decimal, strings_view};
use vstd::prelude::*;
use vstd::string::StringExecFns;

verus! {

/// A program to run, with its arguments.
#[derive(Debug)]
pub struct Invocation {
    pub program: String,
    pub args: Vec<String>,
}

/// The mathematical value of an [`Invocation`].
pub struct InvocationView {
    pub program: Seq<char>,
    pub args: Seq<Seq<char>>,
}

/// What a request to a device comes to: a program to run, where the request
/// changes the device, and the time to wait, in milliseconds, before the
/// state of the device is read again and shown.
#[derive(Debug)]
pub struct Request {
    pub command: Option<Invocation>,
    pub delay: u64,
}

/// The mathematical value of a [`Request`].
pub struct RequestView {
    pub command: Option<InvocationView>,
    pub delay: u64,
}

/// A notification to show to the user.
#[derive(Debug)]
pub struct Notice {
    pub summary: String,
    pub body: String,
    /// The level to draw as a bar, where the notification is about one.
    pub value: Option<u32>,
}

/// The mathematical value of a [`Notice`].
pub struct NoticeView {
    pub summary: Seq<char>,
    pub body: Seq<char>,
    pub value: Option<u32>,
}

impl View for Invocation {
    type V = InvocationView;

    open spec fn view(&self) -> InvocationView {
        InvocationView { program: self.program@, args: strings_view(self.args@) }
    }
}

impl View for Request {
    type V = RequestView;

    open spec fn view(&self) -> RequestView {
        RequestView {
            command: match self.command {
                Some(c) => Some(c@),
                None => None,
            },
            delay: self.delay,
        }
    }
}

impl View for Notice {
    type V = NoticeView;

    open spec fn view(&self) -> NoticeView {
        NoticeView { summary: self.summary@, body: self.body@, value: self.value }
    }
}

/// The time to wait, in milliseconds, before a device that was changed from
/// outside is read again.
pub const SETTLE_DELAY: u64 = 500;

/// The body of the notification that announces a level: `Set to`, the
/// level and a percent sign.
pub open spec fn spec_level_body(value: u32) -> Seq<char> {
    "Set to "@ + spec_decimal(value as nat) + "%"@
}

/// `percent` as an argument: `before`, the number, `after`.
pub open spec fn spec_percent(before: Seq<char>, percent: u32, after: Seq<char>) -> Seq<char> {
    before + spec_decimal(percent as nat) + after
}

impl Invocation {
    /// The call of `program` with the arguments `args`.
    pub fn new(program: &str, args: Vec<String>) -> (res: Self)
        ensures
            res@ == (InvocationView { program: program@, args: strings_view(args@) }),
    {
        Invocation { program: program.to_owned(), args }
    }
}

/// The list of the two strings `first` and `second`.
pub fn pair(first: &str, second: &str) -> (res: Vec<String>)
    ensures
        strings_view(res@) == seq![first@, second@],
{
    let mut res: Vec<String> = Vec::new();
    res.push(first.to_owned());
    res.push(second.to_owned());
    proof {
        assert(strings_view(res@) =~= seq![first@, second@]);
    }
    res
}

/// `list` with `last` added at its end.
pub fn with(list: Vec<String>, last: &str) -> (res: Vec<String>)
    ensures
        strings_view(res@) == strings_view(list@).push(last@),
{
    let mut res = list;
    res.push(last.to_owned());
    proof {
        assert(strings_view(res@) =~= strings_view(list@).push(last@));
    }
    res
}

impl Notice {
    /// The notification that announces a level under the title `summary`.
    pub fn level(summary: &str, value: u32) -> (res: Self)
        ensures
            res@ == (NoticeView {
                summary: summary@,
                body: spec_level_body(value),
                value: Some(value),
            }),
    {
        let mut body = String::from_str("Set to ");
        body.append(decimal(value).as_str());
        body.append("%");
        Notice { summary: summary.to_owned(), body, value: Some(value) }
    }

    /// The notification with the text `body` under the title `summary`.
    pub fn plain(summary: &str, body: &str) -> (res: Self)
        ensures
            res@ == (NoticeView { summary: summary@, body: body@, value: None }),
    {
        Notice { summary: summary.to_owned(), body: body.to_owned(), value: None }
    }
}

/// `percent` as an argument: `before`, the number, `after`.
pub fn percent_argument(before: &str, percent: u32, after: &str) -> (res: String)
    ensures
        res@ == spec_percent(before@, percent, after@),
{
    let mut res = before.to_owned();
    res.append(decimal(percent).as_str());
    res.append(after);
    res
}

} // verus!
