//! What turning remote control on and off does to the machine: to what Tailscale serves at its
//! root, to the record of the own route and to the remote service.
//!
//! A [`Machine`] is what the actions of a run work on. The laws here say what it is like when a run
//! is over, and what a run never touches, whatever fails.

use vstd::prelude::*;

use super::service::{
    CoreModel, FindingModel, OwnedModel, Remote, RemoteEventModel, RemoteState, RunModel,
};
use super::tailscale::{undotted, RouteModel, TailscaleModel};
use crate::number::decimal;
use crate::text::{same_folded, strip_back, trimmed, Trim};
verus! {

/// What the actions of a run work on.
#[verifier::ext_equal]
pub struct Machine {
    /// The name that Tailscale gives the machine.
    pub name: Seq<char>,
    /// What Tailscale serves at the root of the machine.
    pub root: RouteModel,
    /// The record of the own route.
    pub claim: Option<OwnedModel>,
    /// Where the remote service listens, while it runs.
    pub serving: Option<u16>,
    /// Whether everything has succeeded so far.
    pub smooth: bool,
}

impl Machine {
    /// The machine after something failed.
    pub open spec fn failed(self) -> Machine {
        Machine { smooth: false, ..self }
    }
}

/// The route to a port of the machine itself.
pub open spec fn route_to(port: u16) -> RouteModel {
    RouteModel::Proxy("http://127.0.0.1:"@ + decimal(port as nat))
}

/// Whether a step of a run can come to `event` and leave the machine as `after`.
pub open spec fn occurs_at(
    machine: Machine,
    run: RunModel,
    event: RemoteEventModel,
    after: Machine,
) -> bool {
    match (run, event) {
        (RunModel::ReadOwnClaim, RemoteEventModel::Claim(claim)) => claims(machine, claim, after),
        (RunModel::ReadClaim(_), RemoteEventModel::Claim(claim)) => claims(machine, claim, after),
        (RunModel::FindOwnCli(_), RemoteEventModel::Cli(found)) => after == (Machine {
            smooth: machine.smooth && found,
            ..machine
        }),
        (RunModel::ProbeCli, RemoteEventModel::Cli(found)) => after == (Machine {
            smooth: machine.smooth && found,
            ..machine
        }),
        (RunModel::FindCli { .. }, RemoteEventModel::Cli(found)) => after == (Machine {
            smooth: machine.smooth && found,
            ..machine
        }),
        (RunModel::CheckOwnRoute(_), RemoteEventModel::Route(route)) => routes(
            machine,
            route,
            after,
        ),
        (RunModel::Route(_, _), RemoteEventModel::Route(route)) => routes(machine, route, after),
        (RunModel::RemoveRoute, RemoteEventModel::Finished(Ok(_))) => after == (Machine {
            root: RouteModel::Vacant,
            ..machine
        }),
        (RunModel::RemoveClaim, RemoteEventModel::Finished(Ok(_))) => after == (Machine {
            claim: None,
            ..machine
        }),
        (RunModel::StopService, RemoteEventModel::Finished(_)) => after == (Machine {
            serving: None,
            ..machine
        }),
        (RunModel::StartService { .. }, RemoteEventModel::Service(Ok(port))) => after == (Machine {
            serving: Some(port),
            ..machine
        }),
        (RunModel::StartService { .. }, RemoteEventModel::Service(Err(_))) => after == (Machine {
            serving: None,
            ..machine.failed()
        }),
        (RunModel::ProbeStatus, RemoteEventModel::Status(status)) => reports(
            machine,
            status,
            after,
        ),
        (RunModel::Status { .. }, RemoteEventModel::Status(status)) => reports(
            machine,
            status,
            after,
        ),
        (RunModel::SaveClaim(finding), RemoteEventModel::Finished(Ok(_))) => after == (Machine {
            claim: Some(OwnedModel { dns_name: finding.dns_name, port: finding.port }),
            ..machine
        }),
        (RunModel::Serve(finding), RemoteEventModel::Finished(Ok(_))) => after == (Machine {
            root: route_to(finding.port),
            ..machine
        }),
        (RunModel::RemoveRoute, RemoteEventModel::Finished(Err(_))) => after == machine.failed(),
        (RunModel::RemoveClaim, RemoteEventModel::Finished(Err(_))) => after == machine.failed(),
        (RunModel::SaveClaim(_), RemoteEventModel::Finished(Err(_))) => after == machine.failed(),
        (RunModel::Serve(_), RemoteEventModel::Finished(Err(_))) => after == machine.failed(),
        _ => false,
    }
}

/// Whether a look at the record of the own route can give this.
pub open spec fn claims(
    machine: Machine,
    claim: Result<Option<OwnedModel>, Seq<char>>,
    after: Machine,
) -> bool {
    match claim {
        Ok(claim) => claim == machine.claim && after == machine,
        Err(_) => after == machine.failed(),
    }
}

/// Whether a look at the root can give this.
pub open spec fn routes(
    machine: Machine,
    route: Result<RouteModel, Seq<char>>,
    after: Machine,
) -> bool {
    match route {
        Ok(route) => route == machine.root && after == machine,
        Err(_) => after == machine.failed(),
    }
}

/// Whether a look at how Tailscale is can give this.
pub open spec fn reports(
    machine: Machine,
    status: Result<TailscaleModel, Seq<char>>,
    after: Machine,
) -> bool {
    match status {
        Ok(status) => {
            &&& status.dns_name matches Some(name) ==> name == machine.name
            &&& after == (Machine {
                smooth: machine.smooth && same_folded(status.backend_state, "Running"@)
                    && status.dns_name is Some,
                ..machine
            })
        },
        Err(_) => after == machine.failed(),
    }
}

/// The run after a sequence of steps, each with what came of it and the machine it left.
pub open spec fn through(start: Remote, steps: Seq<(RemoteEventModel, Machine)>) -> Remote
    decreases steps.len(),
{
    if steps.len() == 0 {
        start
    } else {
        through(start, steps.drop_last()).after(steps.last().0)
    }
}

/// The machine after a sequence of steps.
pub open spec fn reached(machine: Machine, steps: Seq<(RemoteEventModel, Machine)>) -> Machine {
    if steps.len() == 0 {
        machine
    } else {
        steps.last().1
    }
}

/// Whether each of the steps is what can come of what the run asked for.
pub open spec fn performed(
    start: Remote,
    machine: Machine,
    steps: Seq<(RemoteEventModel, Machine)>,
) -> bool
    decreases steps.len(),
{
    steps.len() == 0 || {
        let before = steps.drop_last();
        &&& performed(start, machine, before)
        &&& occurs_at(
            reached(machine, before),
            through(start, before).run,
            steps.last().0,
            steps.last().1,
        )
    }
}

/// Whether what stands at the root may be replaced: nothing, or the very route that Swapper
/// recorded for this machine.
pub open spec fn is_free(machine: Machine) -> bool {
    ||| machine.root is Vacant
    ||| machine.claim matches Some(own) && same_folded(own.dns_name, machine.name) && machine.root
        == route_to(own.port)
}

spec fn on_its_way(machine0: Machine, remote: Remote, machine: Machine, finding: FindingModel) -> bool {
    &&& finding.epoch == remote.core.epoch
    &&& remote.core.service_port == Some(finding.port)
    &&& machine.serving == Some(finding.port)
    &&& finding.dns_name == machine0.name
    &&& finding.address == "https://"@ + undotted(machine0.name)
    &&& undotted(machine0.name).contains('.')
}

spec fn turns_on(machine0: Machine, remote: Remote, machine: Machine) -> bool {
    let untouched = machine.root == machine0.root && machine.claim == machine0.claim;
    &&& machine.name == machine0.name
    &&& match remote.run {
        RunModel::StartService { .. } => untouched,
        RunModel::FindCli { epoch } => untouched && epoch == remote.core.epoch
            && remote.core.service_port == machine.serving,
        RunModel::Status { epoch } => untouched && epoch == remote.core.epoch
            && remote.core.service_port == machine.serving,
        RunModel::ReadClaim(finding) => untouched && on_its_way(machine0, remote, machine, finding),
        RunModel::Route(finding, recorded) => untouched && on_its_way(
            machine0,
            remote,
            machine,
            finding,
        ) && recorded == machine0.claim,
        RunModel::SaveClaim(finding) => untouched && on_its_way(
            machine0,
            remote,
            machine,
            finding,
        ) && is_free(machine0),
        RunModel::Serve(finding) => {
            &&& on_its_way(machine0, remote, machine, finding)
            &&& is_free(machine0)
            &&& machine.root == machine0.root
            &&& machine.claim == Some(
                OwnedModel { dns_name: finding.dns_name, port: finding.port },
            )
        },
        RunModel::Done => {
            ||| machine.root == machine0.root && (machine.claim == machine0.claim || is_free(
                machine0,
            ))
            ||| is_free(machine0) && (machine.claim matches Some(own) && own.dns_name
                == machine0.name && machine.root == route_to(own.port))
        },
        _ => false,
    }
    &&& remote.core.status.state == RemoteState::Available ==> {
        &&& remote.run is Done
        &&& remote.core.status.address == Some("https://"@ + undotted(machine0.name))
        &&& remote.core.status.message is None
        &&& machine.serving is Some
        &&& machine.root == route_to(machine.serving->Some_0)
        &&& machine.claim == Some(
            OwnedModel { dns_name: machine0.name, port: machine.serving->Some_0 },
        )
        &&& remote.core.owned_route == machine.claim
    }
    &&& machine.smooth && remote.run is Done && undotted(machine0.name).contains('.') && is_free(
        machine0,
    ) ==> remote.core.status.state == RemoteState::Available
    &&& machine.smooth && !(remote.run is Done) && !(remote.run is StartService)
        ==> remote.core.service_port is Some
}

proof fn lemma_turns_on(
    machine0: Machine,
    remote: Remote,
    machine: Machine,
    event: RemoteEventModel,
    after: Machine,
)
    requires
        turns_on(machine0, remote, machine),
        remote.core.status.state != RemoteState::Available,
        occurs_at(machine, remote.run, event, after),
    ensures
        turns_on(machine0, remote.after(event), after),
{
}

/// Turning remote control on, whatever comes of its steps.
///
/// What stands at the root of the machine is replaced only where nothing stands there or what
/// stands there is the very route that Swapper recorded for the machine; and at every moment what
/// Swapper put there is recorded. Remote control is shown as available only where the root leads to
/// the remote service, with the address of the machine; and it is, where nothing fails and the root
/// is free.
pub proof fn turning_on_publishes_the_service(
    start: Remote,
    machine: Machine,
    steps: Seq<(RemoteEventModel, Machine)>,
)
    requires
        start.run is StartService,
        start.core.status.state != RemoteState::Available,
        performed(start, machine, steps),
        trimmed(machine.name) == machine.name,
        machine.name.len() > 0 && machine.name.last() != '.',
    ensures
        ({
            let remote = through(start, steps);
            let end = reached(machine, steps);
            &&& end.root != machine.root ==> is_free(machine) && (end.claim matches Some(own)
                && end.root == route_to(own.port))
            &&& !is_free(machine) ==> end.claim == machine.claim
            &&& remote.core.status.state == RemoteState::Available ==> {
                &&& end.serving matches Some(port) && end.root == route_to(port) && end.claim == Some(
                    OwnedModel { dns_name: machine.name, port },
                )
                &&& remote.core.status.address == Some("https://"@ + machine.name)
            }
            &&& end.smooth && remote.run is Done && machine.name.contains('.') && is_free(machine)
                ==> remote.core.status.state == RemoteState::Available
        }),
{
    assert(undotted(machine.name) == machine.name) by {
        assert(strip_back(machine.name, Trim::Only('.')) == machine.name);
    }
    lemma_turned_on(start, machine, steps);
}

proof fn lemma_turned_on(
    start: Remote,
    machine: Machine,
    steps: Seq<(RemoteEventModel, Machine)>,
)
    requires
        start.run is StartService,
        start.core.status.state != RemoteState::Available,
        performed(start, machine, steps),
    ensures
        turns_on(machine, through(start, steps), reached(machine, steps)),
    decreases steps.len(),
{
    if steps.len() > 0 {
        let before = steps.drop_last();
        lemma_turned_on(start, machine, before);
        lemma_turns_on(
            machine,
            through(start, before),
            reached(machine, before),
            steps.last().0,
            steps.last().1,
        );
    }
}

/// The own route as remote control knows it: the one that it set up, or else the one on record.
pub open spec fn own_route(core: CoreModel, machine: Machine) -> Option<OwnedModel> {
    match core.owned_route {
        Some(own) => Some(own),
        None => machine.claim,
    }
}

spec fn own_stands(core0: CoreModel, machine0: Machine) -> bool {
    own_route(core0, machine0) matches Some(own) && machine0.root == route_to(own.port)
}

spec fn turns_off(core0: CoreModel, machine0: Machine, remote: Remote, machine: Machine) -> bool {
    let untouched = machine.root == machine0.root && machine.claim == machine0.claim
        && remote.core.owned_route == core0.owned_route;
    &&& machine.name == machine0.name
    &&& remote.core.epoch == core0.epoch
    &&& remote.core.status.enabled == core0.status.enabled
    &&& remote.core.status.state == core0.status.state
    &&& match remote.run {
        RunModel::ReadOwnClaim => untouched,
        RunModel::FindOwnCli(own) => untouched && (own_route(core0, machine0) == Some(own)),
        RunModel::CheckOwnRoute(own) => untouched && own_route(core0, machine0) == Some(own),
        RunModel::RemoveRoute => untouched && own_stands(core0, machine0),
        RunModel::RemoveClaim => own_stands(core0, machine0) && machine.root is Vacant
            && machine.claim == machine0.claim && remote.core.owned_route is None,
        RunModel::StopService | RunModel::ProbeCli | RunModel::ProbeStatus | RunModel::Done => {
            ||| untouched && (machine.smooth ==> !own_stands(core0, machine0))
            ||| own_stands(core0, machine0) && machine.root is Vacant && remote.core.owned_route is None
                && (machine.smooth ==> machine.claim is None)
        },
        _ => false,
    }
    &&& remote.run is ProbeCli || remote.run is ProbeStatus || remote.run is Done ==> {
        &&& machine.serving is None
        &&& remote.core.service_port is None
    }
}

proof fn lemma_turns_off(
    core0: CoreModel,
    machine0: Machine,
    remote: Remote,
    machine: Machine,
    event: RemoteEventModel,
    after: Machine,
)
    requires
        turns_off(core0, machine0, remote, machine),
        occurs_at(machine, remote.run, event, after),
    ensures
        turns_off(core0, machine0, remote.after(event), after),
{
}

/// Turning remote control off, whatever comes of its steps.
///
/// What stands at the root of the machine is removed only if it is the own route, and where nothing
/// fails the own route and its record are gone in the end. The remote service is stopped in any
/// case, and what is shown as off stays off.
pub proof fn turning_off_withdraws_the_service(
    start: Remote,
    machine: Machine,
    steps: Seq<(RemoteEventModel, Machine)>,
)
    requires
        start.run == RunModel::ReadOwnClaim,
        performed(start, machine, steps),
    ensures
        ({
            let remote = through(start, steps);
            let end = reached(machine, steps);
            let own_there = own_route(start.core, machine) matches Some(own) && machine.root
                == route_to(own.port);
            &&& end.root == machine.root || own_there && end.root is Vacant
            &&& end.claim != machine.claim ==> end.root is Vacant && own_there
            &&& remote.run is Done ==> {
                &&& end.serving is None
                &&& remote.core.service_port is None
                &&& end.smooth && own_there ==> end.root is Vacant && end.claim is None
                    && remote.core.owned_route is None
            }
            &&& remote.core.status.enabled == start.core.status.enabled
            &&& remote.core.status.state == start.core.status.state
        }),
{
    lemma_turned_off(start, machine, steps);
}

proof fn lemma_turned_off(
    start: Remote,
    machine: Machine,
    steps: Seq<(RemoteEventModel, Machine)>,
)
    requires
        start.run == RunModel::ReadOwnClaim,
        performed(start, machine, steps),
    ensures
        turns_off(start.core, machine, through(start, steps), reached(machine, steps)),
    decreases steps.len(),
{
    if steps.len() > 0 {
        let before = steps.drop_last();
        lemma_turned_off(start, machine, before);
        lemma_turns_off(
            start.core,
            machine,
            through(start, before),
            reached(machine, before),
            steps.last().0,
            steps.last().1,
        );
    }
}

} // verus!
