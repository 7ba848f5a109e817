//! What the callbacks of a client are told in the course of a fetch.
use vstd::prelude::*;

use crate::client::{ClientView, ObscuraHttpClient};
use crate::fetch::{FetchStep, StepView};
use crate::response::{InfoView, RequestInfo, Response, ResponseView};

verus! {

/// How far the request of a fetch has come.
#[derive(Clone, Copy, Debug, PartialEq, Eq, Structural)]
pub enum Stage {
    /// There is no request yet.
    Idle,
    /// The interceptor is asked.
    Asked,
    /// The request is sent.
    Sending,
    /// The body of the response is read.
    Reading,
    /// The fetch is over.
    Over,
}

/// What callbacks have to know of a fetch: the request that it makes, as it
/// was before the interceptor was asked.
#[derive(Debug)]
pub struct Watch {
    pub stage: Stage,
    pub request: Option<RequestInfo>,
}

/// A watch as mathematical values.
pub struct WatchView {
    pub stage: Stage,
    pub request: Option<InfoView>,
}

impl View for Watch {
    type V = WatchView;

    open spec fn view(&self) -> WatchView {
        WatchView {
            stage: self.stage,
            request: match self.request {
                Some(request) => Some(request@),
                None => None,
            },
        }
    }
}

/// What is due when a fetch comes to a step.
pub enum Due<'a> {
    /// No callback is called.
    Nothing,
    /// The request callbacks are called with this.
    Request(RequestInfo),
    /// The response callbacks are called with these.
    Response(RequestInfo, &'a Response),
}

/// What callbacks are told.
pub enum Notice {
    /// That this request is made.
    Request(InfoView),
    /// That this request was answered so.
    Response(InfoView, ResponseView),
}

impl<'a> View for Due<'a> {
    type V = Option<Notice>;

    open spec fn view(&self) -> Option<Notice> {
        match self {
            Due::Nothing => None,
            Due::Request(request) => Some(Notice::Request(request@)),
            Due::Response(request, response) => Some(Notice::Response(request@, response@)),
        }
    }
}

/// The watch of a fetch that did not begin yet.
pub open spec fn fresh_watch() -> WatchView {
    WatchView { stage: Stage::Idle, request: None }
}

impl WatchView {
    /// The watch after the fetch of this client came to this step.
    pub open spec fn after<J>(self, client: ClientView<J>, step: StepView) -> WatchView {
        match step {
            StepView::Intercept(hop) => WatchView {
                stage: Stage::Asked,
                request: Some(client.request_info(hop)),
            },
            StepView::Send(_) => WatchView { stage: Stage::Sending, ..self },
            StepView::ReadBody { .. } => WatchView { stage: Stage::Reading, ..self },
            StepView::Finish(_) => WatchView { stage: Stage::Over, ..self },
            StepView::CheckTracker { .. } => self,
            StepView::ReadFile { .. } => self,
        }
    }

    /// What callbacks are told when the fetch comes to this step: that a
    /// request is made, once the interceptor let it pass, and that it was
    /// answered, once the body was read.
    pub open spec fn notice(self, step: StepView) -> Option<Notice> {
        match (self.request, step) {
            (Some(request), StepView::Send(_)) => if self.stage == Stage::Asked {
                Some(Notice::Request(request))
            } else {
                None
            },
            (Some(request), StepView::Finish(Ok(response))) => if self.stage == Stage::Reading {
                Some(Notice::Response(request, response))
            } else {
                None
            },
            _ => None,
        }
    }
}

impl Watch {
    /// The watch of a fetch that did not begin yet.
    pub fn new() -> (r: Self)
        ensures
            r@ == fresh_watch(),
    {
        Watch { stage: Stage::Idle, request: None }
    }

    /// The request that the fetch makes, as the interceptor and the callbacks
    /// see it.
    pub fn request(&self) -> (r: Option<&RequestInfo>)
        ensures
            match r {
                Some(request) => self@.request == Some(request@),
                None => self@.request is None,
            },
    {
        self.request.as_ref()
    }

    /// Takes note that the fetch of `client` came to `step`, and says what is
    /// due then.
    pub fn observe<'a, J>(&mut self, client: &ObscuraHttpClient<J>, step: &'a FetchStep) -> (r: Due<
        'a,
    >)
        ensures
            final(self)@ == old(self)@.after(client@, step@),
            r@ == old(self)@.notice(step@),
    {
        let before = self.stage;
        match step {
            FetchStep::Intercept(hop) => {
                self.stage = Stage::Asked;
                self.request = Some(client.request_info(hop));
                Due::Nothing
            },
            FetchStep::Send(_) => {
                self.stage = Stage::Sending;
                match &self.request {
                    Some(request) => if before == Stage::Asked {
                        Due::Request(request.clone())
                    } else {
                        Due::Nothing
                    },
                    None => Due::Nothing,
                }
            },
            FetchStep::ReadBody(_) => {
                self.stage = Stage::Reading;
                Due::Nothing
            },
            FetchStep::Finish(outcome) => {
                self.stage = Stage::Over;
                match (&self.request, outcome) {
                    (Some(request), Ok(response)) => if before == Stage::Reading {
                        Due::Response(request.clone(), response)
                    } else {
                        Due::Nothing
                    },
                    _ => Due::Nothing,
                }
            },
            FetchStep::CheckTracker(_) => Due::Nothing,
            FetchStep::ReadFile(_) => Due::Nothing,
        }
    }
}

} // verus!
