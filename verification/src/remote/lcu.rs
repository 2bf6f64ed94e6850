//! Watching the League client: whether it runs, and whether its socket is connected.
//!
//! A [`Watch`] goes round and round. It decides what to do next; the caller does it and reports
//! what came of it. The caller holds the socket and drops it whenever the watch does.

use vstd::prelude::*;

use crate::lcu::{endpoint_view, EndpointModel, LcuEndpoint};
use crate::text::same;

verus! {

/// What is done next in a round.
#[derive(Clone, Copy, Debug, PartialEq, Eq)]
pub enum WatchStep {
    /// The League client is to be found.
    Discover,
    /// The socket of the client that was found is to be connected.
    Connect,
    /// What the socket holds is to be read and thrown away.
    Drain,
    /// The round is over.
    Rest,
}

/// What came of a step.
pub enum WatchEvent {
    /// Where the League client listens, if it runs.
    Discovered(Option<LcuEndpoint>),
    /// Whether the socket was connected.
    Connected(bool),
    /// Whether the socket turned out to be closed.
    Drained { closed: bool },
    Rested,
}

/// What came of a step, as a mathematical value.
pub enum WatchEventModel {
    Discovered(Option<EndpointModel>),
    Connected(bool),
    Drained { closed: bool },
    Rested,
}

impl View for WatchEvent {
    type V = WatchEventModel;

    open spec fn view(&self) -> WatchEventModel {
        match *self {
            WatchEvent::Discovered(endpoint) => WatchEventModel::Discovered(
                endpoint_view(endpoint),
            ),
            WatchEvent::Connected(connected) => WatchEventModel::Connected(connected),
            WatchEvent::Drained { closed } => WatchEventModel::Drained { closed },
            WatchEvent::Rested => WatchEventModel::Rested,
        }
    }
}

/// What a watch knows.
pub struct Watch {
    /// Where the League client was found last.
    pub expected: Option<LcuEndpoint>,
    /// Where the socket is connected to, while there is one.
    pub connected_to: Option<LcuEndpoint>,
    pub league_running: bool,
    pub lcu_connected: bool,
    pub step: WatchStep,
}

/// What a watch knows, as a mathematical value.
pub struct WatchModel {
    pub expected: Option<EndpointModel>,
    pub connected_to: Option<EndpointModel>,
    pub league_running: bool,
    pub lcu_connected: bool,
    pub step: WatchStep,
}

impl View for Watch {
    type V = WatchModel;

    open spec fn view(&self) -> WatchModel {
        WatchModel {
            expected: endpoint_view(self.expected),
            connected_to: endpoint_view(self.connected_to),
            league_running: self.league_running,
            lcu_connected: self.lcu_connected,
            step: self.step,
        }
    }
}

/// A watch as it begins.
pub open spec fn watch_begun() -> WatchModel {
    WatchModel {
        expected: None,
        connected_to: None,
        league_running: false,
        lcu_connected: false,
        step: WatchStep::Discover,
    }
}

impl WatchModel {
    /// The watch without a socket.
    pub open spec fn without_socket(self) -> WatchModel {
        WatchModel { connected_to: None, lcu_connected: false, ..self }
    }

    /// The watch once it is known where the League client listens: what it knew changes only
    /// where that is new.
    pub open spec fn found(self, endpoint: Option<EndpointModel>) -> WatchModel {
        let seen = WatchModel { expected: endpoint, league_running: endpoint is Some, ..self };
        let noted = if endpoint is None && self.is_news(endpoint) {
            seen.without_socket()
        } else {
            seen
        };
        if endpoint is Some && noted.connected_to != endpoint {
            WatchModel { step: WatchStep::Connect, ..noted.without_socket() }
        } else if noted.connected_to is Some {
            WatchModel { step: WatchStep::Drain, ..noted }
        } else {
            WatchModel { step: WatchStep::Rest, ..noted }
        }
    }

    /// Whether it is new where the League client listens.
    pub open spec fn is_news(self, endpoint: Option<EndpointModel>) -> bool {
        (endpoint is Some) != self.league_running || endpoint != self.expected
    }

    /// The watch after an event. An event that was not asked for changes nothing.
    pub open spec fn after(self, event: WatchEventModel) -> WatchModel {
        match (self.step, event) {
            (WatchStep::Discover, WatchEventModel::Discovered(endpoint)) => self.found(endpoint),
            (WatchStep::Connect, WatchEventModel::Connected(connected)) => if connected {
                WatchModel {
                    connected_to: self.expected,
                    lcu_connected: true,
                    step: WatchStep::Drain,
                    ..self
                }
            } else {
                WatchModel { step: WatchStep::Rest, ..self }
            },
            (WatchStep::Drain, WatchEventModel::Drained { closed }) => if closed {
                WatchModel { step: WatchStep::Rest, ..self.without_socket() }
            } else {
                WatchModel { step: WatchStep::Rest, ..self }
            },
            (WatchStep::Rest, WatchEventModel::Rested) => WatchModel {
                step: WatchStep::Discover,
                ..self
            },
            _ => self,
        }
    }

    /// What others are told after an event: whether League runs and whether its client is
    /// connected.
    pub open spec fn told(self, event: WatchEventModel) -> Option<(bool, bool)> {
        match (self.step, event) {
            (WatchStep::Discover, WatchEventModel::Discovered(endpoint)) => if self.is_news(
                endpoint,
            ) {
                Some((endpoint is Some, endpoint is Some && self.lcu_connected))
            } else {
                None
            },
            (WatchStep::Connect, WatchEventModel::Connected(connected)) => Some((true, connected)),
            (WatchStep::Drain, WatchEventModel::Drained { closed }) => if closed
                && self.lcu_connected {
                Some((true, false))
            } else {
                None
            },
            _ => None,
        }
    }

    /// What every watch keeps: it counts as connected exactly while there is a socket, there is
    /// a socket only while the League client runs, and once a round has looked for the client
    /// the socket is connected to the client that was found.
    pub open spec fn wf(self) -> bool {
        &&& self.lcu_connected == (self.connected_to is Some)
        &&& self.league_running == (self.expected is Some)
        &&& self.connected_to is Some ==> self.connected_to == self.expected
        &&& self.step == WatchStep::Connect ==> self.expected is Some && self.connected_to is None
        &&& self.step == WatchStep::Drain ==> self.connected_to is Some
    }
}

/// Every event keeps a watch well-formed.
pub proof fn watch_stays_well_formed(watch: WatchModel, event: WatchEventModel)
    requires
        watch.wf(),
    ensures
        watch.after(event).wf(),
{
}

/// Whether the event shows the League client at a new place while the socket to the old place is
/// still there.
pub open spec fn moved(watch: WatchModel, event: WatchEventModel) -> bool {
    &&& watch.step == WatchStep::Discover
    &&& watch.lcu_connected
    &&& (event matches WatchEventModel::Discovered(Some(endpoint)) && watch.connected_to != Some(
        endpoint,
    ))
}

/// Others are told that the client is connected only where the socket is connected to the client
/// that was found last, with one exception: where the client is found at a new place while the
/// old socket is still there, they are told so once more. That socket is gone after the event,
/// and the next they hear is whether the new connection came about.
pub proof fn told_connected_means_connected(watch: WatchModel, event: WatchEventModel)
    requires
        watch.wf(),
    ensures
        ({
            let next = watch.after(event);
            &&& watch.told(event) matches Some((_, connected)) ==> connected && !moved(
                watch,
                event,
            ) ==> {
                &&& next.lcu_connected
                &&& next.connected_to is Some
                &&& next.connected_to == next.expected
            }
            &&& moved(watch, event) ==> {
                &&& watch.told(event) == Some((true, true))
                &&& next.connected_to is None
                &&& next.step == WatchStep::Connect
                &&& forall|connected: bool| #[trigger]
                    next.told(WatchEventModel::Connected(connected)) == Some((true, connected))
            }
        }),
{
}

/// After every event the client counts as connected only while the socket is connected to the
/// client that was found last; and once League is gone others are told that it is not.
pub proof fn connected_means_connected_to_the_found_client(
    watch: WatchModel,
    event: WatchEventModel,
)
    requires
        watch.wf(),
    ensures
        watch.after(event).lcu_connected ==> watch.after(event).connected_to == watch.after(
            event,
        ).expected && watch.after(event).expected is Some,
        watch.step == WatchStep::Discover && event == WatchEventModel::Discovered(None) ==> {
            &&& !watch.after(event).lcu_connected
            &&& watch.league_running ==> watch.told(event) == Some((false, false))
        },
{
}

fn same_endpoint(a: &Option<LcuEndpoint>, b: &Option<LcuEndpoint>) -> (equal: bool)
    ensures
        equal == (endpoint_view(*a) == endpoint_view(*b)),
{
    match (a, b) {
        (Some(a), Some(b)) => a.port == b.port && same(a.password.as_str(), b.password.as_str())
            && same(a.protocol.as_str(), b.protocol.as_str()),
        (None, None) => true,
        _ => false,
    }
}

fn copy_endpoint(endpoint: &Option<LcuEndpoint>) -> (copy: Option<LcuEndpoint>)
    ensures
        copy == *endpoint,
{
    match endpoint {
        Some(endpoint) => Some(endpoint.clone()),
        None => None,
    }
}

/// Begins to watch the League client.
pub fn watch() -> (watch: Watch)
    ensures
        watch@ == watch_begun(),
        watch@.wf(),
{
    Watch {
        expected: None,
        connected_to: None,
        league_running: false,
        lcu_connected: false,
        step: WatchStep::Discover,
    }
}

impl Watch {
    fn drop_socket(&mut self)
        ensures
            final(self)@ == old(self)@.without_socket(),
    {
        self.connected_to = None;
        self.lcu_connected = false;
    }

    fn find(&mut self, endpoint: Option<LcuEndpoint>) -> (told: Option<(bool, bool)>)
        requires
            old(self)@.step == WatchStep::Discover,
        ensures
            final(self)@ == old(self)@.found(endpoint_view(endpoint)),
            told == old(self)@.told(WatchEventModel::Discovered(endpoint_view(endpoint))),
    {
        let running = endpoint.is_some();
        let news = running != self.league_running || !same_endpoint(&endpoint, &self.expected);
        let mut told: Option<(bool, bool)> = None;
        self.league_running = running;
        self.expected = copy_endpoint(&endpoint);
        if news {
            if !running {
                self.drop_socket();
            }
            told = Some((running, self.lcu_connected));
        }
        if running && !same_endpoint(&self.connected_to, &endpoint) {
            self.drop_socket();
            self.step = WatchStep::Connect;
        } else if self.connected_to.is_some() {
            self.step = WatchStep::Drain;
        } else {
            self.step = WatchStep::Rest;
        }
        told
    }

    /// Takes note of what came of a step. The result is what others are told. An event that was
    /// not asked for changes nothing.
    pub fn handle(&mut self, event: WatchEvent) -> (told: Option<(bool, bool)>)
        requires
            old(self)@.wf(),
        ensures
            final(self)@ == old(self)@.after(event@),
            final(self)@.wf(),
            told == old(self)@.told(event@),
    {
        match (self.step, event) {
            (WatchStep::Discover, WatchEvent::Discovered(endpoint)) => self.find(endpoint),
            (WatchStep::Connect, WatchEvent::Connected(connected)) => {
                if connected {
                    self.connected_to = copy_endpoint(&self.expected);
                    self.lcu_connected = true;
                    self.step = WatchStep::Drain;
                } else {
                    self.step = WatchStep::Rest;
                }
                Some((true, connected))
            },
            (WatchStep::Drain, WatchEvent::Drained { closed }) => {
                self.step = WatchStep::Rest;
                if closed {
                    self.drop_socket();
                    Some((true, false))
                } else {
                    None
                }
            },
            (WatchStep::Rest, WatchEvent::Rested) => {
                self.step = WatchStep::Discover;
                None
            },
            _ => None,
        }
    }
}

/// What others were told last in the course of these events; before they are told anything League
/// does not run.
pub open spec fn last_told(watch: WatchModel, events: Seq<WatchEventModel>) -> (bool, bool)
    decreases events.len(),
{
    if events.len() == 0 {
        (false, false)
    } else {
        match watched(watch, events.drop_last()).told(events.last()) {
            Some(told) => told,
            None => last_told(watch, events.drop_last()),
        }
    }
}

/// A watch after a whole sequence of events.
pub open spec fn watched(watch: WatchModel, events: Seq<WatchEventModel>) -> WatchModel
    decreases events.len(),
{
    if events.len() == 0 {
        watch
    } else {
        watched(watch, events.drop_last()).after(events.last())
    }
}

/// What others were told last is how things are, except while a connection to a League client that
/// was just found is being made.
pub proof fn others_know_how_things_are(events: Seq<WatchEventModel>)
    ensures
        ({
            let watch = watched(watch_begun(), events);
            let told = last_told(watch_begun(), events);
            &&& watch.wf()
            &&& told.0 == watch.league_running
            &&& watch.step != WatchStep::Connect ==> told.1 == watch.lcu_connected
        }),
    decreases events.len(),
{
    if events.len() > 0 {
        others_know_how_things_are(events.drop_last());
        watch_stays_well_formed(watched(watch_begun(), events.drop_last()), events.last());
    }
}

/// A League client that was found is connected to unless it is already, a connection is kept until
/// it is closed or the client is gone, and whatever comes of it the client is looked for again.
pub proof fn found_client_is_connected_to(watch: WatchModel, place: EndpointModel)
    requires
        watch.wf(),
        watch.step == WatchStep::Discover,
    ensures
        ({
            let found = watch.after(WatchEventModel::Discovered(Some(place)));
            let connected = found.after(WatchEventModel::Connected(true));
            let refused = found.after(WatchEventModel::Connected(false));
            &&& found.league_running && found.expected == Some(place)
            &&& watch.connected_to == Some(place) ==> found.step == WatchStep::Drain
                && found.connected_to == Some(place) && found.lcu_connected
            &&& watch.connected_to != Some(place) ==> {
                &&& found.step == WatchStep::Connect
                &&& connected.connected_to == Some(place) && connected.lcu_connected
                    && connected.step == WatchStep::Drain
                &&& refused.connected_to is None && !refused.lcu_connected && refused.step
                    == WatchStep::Rest
                &&& refused.after(WatchEventModel::Rested).step == WatchStep::Discover
            }
        }),
        watch.after(WatchEventModel::Discovered(None)).step == WatchStep::Rest,
        !watch.after(WatchEventModel::Discovered(None)).league_running,
        watch.after(WatchEventModel::Discovered(None)).connected_to is None,
{
}

/// A socket that was closed is dropped, and one that was not is kept.
pub proof fn closed_socket_is_dropped(watch: WatchModel, closed: bool)
    requires
        watch.wf(),
        watch.step == WatchStep::Drain,
    ensures
        ({
            let next = watch.after(WatchEventModel::Drained { closed });
            &&& next.step == WatchStep::Rest
            &&& next.lcu_connected == !closed
            &&& next.connected_to == (if closed {
                None
            } else {
                watch.connected_to
            })
            &&& next.league_running == watch.league_running
        }),
{
}

} // verus!
