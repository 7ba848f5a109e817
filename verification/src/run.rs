//! A whole fetch, from its first step to its end, as a run through states.
//! What moves it on are the answers of the network, the file system, the
//! interceptor and the list of trackers; to what each answer leads is what the
//! functions of `fetch` state of their results.
use vstd::prelude::*;

use crate::callbacks::{fresh_watch, Notice, WatchView};
use crate::client::ClientView;
use crate::error::ErrorView;
use crate::fetch::{
    body_outcome, decided_step, file_outcome, head_step, intercepted_step, redirection,
    send_failed_step, HopView, StepView,
};
use crate::guard::private_allowed;
use crate::header_map::text_of_value;
use crate::headers::Pairs;
use crate::response::ActionView;
use crate::urls::{url_joined, UrlView};

verus! {

/// What a fetch waits for.
pub enum Phase {
    /// That this step is taken.
    Step(StepView),
    /// That this request, which is being sent, is answered.
    Awaiting(HopView),
}

/// A client and where its fetch is.
pub struct FetchState<J> {
    pub client: ClientView<J>,
    pub phase: Phase,
}

/// What a fetch is answered from outside.
pub enum Answer {
    /// Whether the host is a tracker.
    Tracker(bool),
    /// What the interceptor does; without one, that is to continue.
    Action(ActionView),
    /// The connections of the client could not be set up.
    NoConnection(ErrorView),
    /// The sending of the request began.
    Begun,
    /// The request could not be sent or got no response.
    Failed(Seq<char>),
    /// The head of the response came: its status, its first `Location`, what
    /// is kept of its headers, and the value that the environment variable
    /// that opens the private network has then.
    Head {
        status: u16,
        location: Option<Seq<u8>>,
        headers: Pairs,
        env: Option<Seq<char>>,
    },
    /// What reading the body or the file gave.
    Read(Result<Seq<u8>, Seq<char>>),
}

impl<J> FetchState<J> {
    /// The state after an answer, unless the fetch does not wait for such a
    /// one.
    pub open spec fn after(self, answer: Answer) -> Option<FetchState<J>> {
        match (self.phase, answer) {
            (Phase::Step(StepView::CheckTracker { host, hop }), Answer::Tracker(is_tracker)) => Some(
                self.at(decided_step(hop, is_tracker)),
            ),
            (Phase::Step(StepView::Intercept(hop)), Answer::Action(action)) => Some(
                FetchState {
                    client: self.client.after_action(action),
                    phase: Phase::Step(intercepted_step(hop, action)),
                },
            ),
            (Phase::Step(StepView::Send(hop)), Answer::NoConnection(error)) => Some(
                self.at(StepView::Finish(Err(error))),
            ),
            (Phase::Step(StepView::Send(hop)), Answer::Begun) => Some(
                FetchState { client: self.client.after_begin(), phase: Phase::Awaiting(hop) },
            ),
            (Phase::Awaiting(hop), Answer::Failed(reason)) => Some(
                FetchState {
                    client: self.client.after_end(),
                    phase: Phase::Step(send_failed_step(hop, reason)),
                },
            ),
            (Phase::Awaiting(hop), Answer::Head { status, location, headers, env }) => Some(
                FetchState {
                    client: self.client.after_end(),
                    phase: Phase::Step(
                        head_step(
                            hop,
                            status,
                            location,
                            headers,
                            private_allowed(self.client.allow_private_network, env),
                        ),
                    ),
                },
            ),
            (
                Phase::Step(StepView::ReadBody { url, status, headers, redirects }),
                Answer::Read(read),
            ) => Some(
                self.at(StepView::Finish(body_outcome(url, status, headers, redirects, read))),
            ),
            (Phase::Step(StepView::ReadFile { url, file }), Answer::Read(read)) => Some(
                self.at(StepView::Finish(file_outcome(url, file, read))),
            ),
            _ => None,
        }
    }

    /// This client at another step.
    pub open spec fn at(self, step: StepView) -> FetchState<J> {
        FetchState { client: self.client, phase: Phase::Step(step) }
    }

    /// The state after these answers, from the first to the last, unless the
    /// fetch did not wait for one of them.
    pub open spec fn reached(self, answers: Seq<Answer>) -> Option<FetchState<J>>
        decreases answers.len(),
    {
        if answers.len() == 0 {
            Some(self)
        } else {
            match self.reached(answers.drop_last()) {
                Some(state) => state.after(answers.last()),
                None => None,
            }
        }
    }
}

/// What the callbacks of a client were told, and what they have to know to be
/// told more.
pub struct Told {
    pub watch: WatchView,
    pub notices: Seq<Notice>,
}

impl Told {
    /// After the fetch of this client came to this step.
    pub open spec fn at<J>(self, client: ClientView<J>, step: StepView) -> Told {
        Told {
            watch: self.watch.after(client, step),
            notices: match self.watch.notice(step) {
                Some(notice) => self.notices.push(notice),
                None => self.notices,
            },
        }
    }
}

impl<J> FetchState<J> {
    /// What the callbacks are told in this state, after what they were told
    /// before: a fetch that waits for a step has come to it.
    pub open spec fn telling(self, told: Told) -> Told {
        match self.phase {
            Phase::Step(step) => told.at(self.client, step),
            Phase::Awaiting(_) => told,
        }
    }

    /// What the callbacks were told of a fetch that was in this state at first
    /// and got these answers, each of its steps observed once.
    pub open spec fn told(self, answers: Seq<Answer>) -> Told
        decreases answers.len(),
    {
        if answers.len() == 0 {
            self.telling(Told { watch: fresh_watch(), notices: Seq::empty() })
        } else {
            match self.reached(answers) {
                Some(state) => state.telling(self.told(answers.drop_last())),
                None => self.told(answers.drop_last()),
            }
        }
    }

    /// The URLs that were requested by a fetch that was in this state at first
    /// and got these answers, in their order.
    pub open spec fn requested(self, answers: Seq<Answer>) -> Seq<UrlView>
        decreases answers.len(),
    {
        if answers.len() == 0 {
            Seq::empty()
        } else {
            let earlier = self.requested(answers.drop_last());
            match (self.reached(answers), answers.last()) {
                (Some(state), Answer::Begun) => match state.phase {
                    Phase::Awaiting(hop) => earlier.push(hop.url),
                    _ => earlier,
                },
                _ => earlier,
            }
        }
    }
}

/// The targets, as servers wrote them, of those of these answers that redirect,
/// in their order.
pub open spec fn locations(answers: Seq<Answer>) -> Seq<Seq<u8>>
    decreases answers.len(),
{
    if answers.len() == 0 {
        Seq::empty()
    } else {
        let earlier = locations(answers.drop_last());
        match answers.last() {
            Answer::Head { status, location: Some(location), .. } => if redirection(status) {
                earlier.push(location)
            } else {
                earlier
            },
            _ => earlier,
        }
    }
}

/// `target` is what `location` refers to on a page of `from`.
pub open spec fn leads_to(from: UrlView, location: Seq<u8>, target: UrlView) -> bool {
    &&& text_of_value(location) matches Some(reference)
    &&& url_joined(from.text, reference) == Ok::<UrlView, Seq<char>>(target)
}

/// Each of the URLs after the first one is what the location of that number
/// refers to on a page of the URL before it.
pub open spec fn chained(urls: Seq<UrlView>, locations: Seq<Seq<u8>>) -> bool {
    &&& urls.len() <= locations.len() + 1
    &&& forall|i: int|
        0 < i < urls.len() ==> leads_to(urls[i - 1], locations[i - 1], #[trigger] urls[i])
}

/// How many requests the callbacks were told of.
pub open spec fn requests_told(notices: Seq<Notice>) -> nat
    decreases notices.len(),
{
    if notices.len() == 0 {
        0
    } else {
        requests_told(notices.drop_last()) + if notices.last() is Request {
            1nat
        } else {
            0
        }
    }
}

/// How many responses the callbacks were told of.
pub open spec fn responses_told(notices: Seq<Notice>) -> nat
    decreases notices.len(),
{
    if notices.len() == 0 {
        0
    } else {
        responses_told(notices.drop_last()) + if notices.last() is Response {
            1nat
        } else {
            0
        }
    }
}

/// The request that a fetch is about to make or is making.
pub open spec fn hop_in(phase: Phase) -> Option<HopView> {
    match phase {
        Phase::Awaiting(hop) => Some(hop),
        Phase::Step(StepView::CheckTracker { host, hop }) => Some(hop),
        Phase::Step(StepView::Intercept(hop)) => Some(hop),
        Phase::Step(StepView::Send(hop)) => Some(hop),
        _ => None,
    }
}

/// Whether the private network was open to a fetch when it last chose a URL:
/// when the last of these answers that was a response came, else at first.
pub open spec fn open_at_last(setting: bool, env: Option<Seq<char>>, answers: Seq<Answer>) -> bool
    decreases answers.len(),
{
    if answers.len() == 0 {
        private_allowed(setting, env)
    } else {
        match answers.last() {
            Answer::Head { status, location, headers, env: then } => private_allowed(setting, then),
            _ => open_at_last(setting, env, answers.drop_last()),
        }
    }
}

/// How many requests began to be sent.
pub open spec fn begun(answers: Seq<Answer>) -> nat
    decreases answers.len(),
{
    if answers.len() == 0 {
        0
    } else {
        begun(answers.drop_last()) + if answers.last() is Begun {
            1nat
        } else {
            0
        }
    }
}

/// How many requests were answered, or failed.
pub open spec fn ended(answers: Seq<Answer>) -> nat
    decreases answers.len(),
{
    if answers.len() == 0 {
        0
    } else {
        ended(answers.drop_last()) + if answers.last() is Head || answers.last() is Failed {
            1nat
        } else {
            0
        }
    }
}

/// A URL that is requested over the network.
pub open spec fn web(url: UrlView) -> bool {
    url.scheme == "http"@ || url.scheme == "https"@
}

/// No interceptor answered a request in place of the server.
pub open spec fn none_fulfilled(answers: Seq<Answer>) -> bool {
    forall|i: int|
        0 <= i < answers.len() ==> !((#[trigger] answers[i]) matches Answer::Action(
            ActionView::Fulfill(_),
        ))
}

/// Only requests over the network were answered with the head of a response.
/// This is the part of the HTTP library, which refuses to send any other.
pub open spec fn web_answers<J>(start: FetchState<J>, answers: Seq<Answer>) -> bool {
    forall|i: int|
        0 <= i < answers.len() && (#[trigger] answers[i]) is Head ==> {
            start.reached(answers.take(i)) matches Some(state) ==> {
                state.phase matches Phase::Awaiting(hop) ==> web(hop.url)
            }
        }
}

} // verus!
