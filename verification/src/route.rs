//! Creating a tunnel and binding a DNS name to it, as one two-phase operation:
//! `tunnel create <name>`, finding the new tunnel's UUID, then
//! `tunnel route dns -f <uuid> <domain>` (overwriting any existing record).
//! When the binding fails, the tunnel just created is deleted again
//! (`tunnel delete -f <uuid>`) before the failure is reported, so that no
//! half-made tunnel is left behind.
//!
//! The flow is a state machine: the application performs each action (runs
//! the command, looks up the UUID) and feeds back what came of it.

use vstd::prelude::*;
use crate::text::{concat2, concat3, owned, trim_str, trimmed, views};

verus! {

/// Where the flow stands.
#[derive(Clone, Copy, Debug, PartialEq, Eq)]
pub enum RouteStage {
    /// Waiting for `tunnel create` to finish.
    Creating,
    /// Waiting for the UUID of the new tunnel.
    Extracting,
    /// Waiting for `tunnel route dns` to finish.
    Routing,
    /// Waiting for `tunnel delete` of the new tunnel after a failed binding.
    RollingBack,
    /// Finished.
    Done,
}

/// The state of the flow: the stage, the tunnel name and domain (trimmed),
/// the UUID once it is known, and the failure to report once rolled back.
pub struct RouteState {
    pub stage: RouteStage,
    pub name: String,
    pub domain: String,
    pub uuid: String,
    pub error: String,
}

/// What came of the last action.
pub enum RouteEvent {
    /// A `cloudflared` subcommand finished: its standard output and error, or
    /// the failure message.
    Output(Result<(String, String), String>),
    /// The UUID lookup finished.
    Uuid(Result<String, String>),
}

/// What the application is to do next.
pub enum RouteAction {
    /// Run `cloudflared` with these arguments.
    Run(Vec<String>),
    /// Look up the UUID of the tunnel `name` created with this output.
    ExtractUuid { stdout: String, stderr: String, name: String },
    /// Stop with this result.
    Finish(Result<String, String>),
}

/// The state as plain values.
pub struct RouteStateView {
    pub stage: RouteStage,
    pub name: Seq<char>,
    pub domain: Seq<char>,
    pub uuid: Seq<char>,
    pub error: Seq<char>,
}

/// An event as plain values.
pub enum RouteEventView {
    Output(Result<(Seq<char>, Seq<char>), Seq<char>>),
    Uuid(Result<Seq<char>, Seq<char>>),
}

/// An action as plain values.
pub enum RouteActionView {
    Run(Seq<Seq<char>>),
    ExtractUuid(Seq<char>, Seq<char>, Seq<char>),
    Finish(Result<Seq<char>, Seq<char>>),
}

impl View for RouteState {
    type V = RouteStateView;

    open spec fn view(&self) -> RouteStateView {
        RouteStateView {
            stage: self.stage,
            name: self.name@,
            domain: self.domain@,
            uuid: self.uuid@,
            error: self.error@,
        }
    }
}

impl View for RouteEvent {
    type V = RouteEventView;

    open spec fn view(&self) -> RouteEventView {
        match self {
            RouteEvent::Output(Ok(p)) => RouteEventView::Output(Ok((p.0@, p.1@))),
            RouteEvent::Output(Err(m)) => RouteEventView::Output(Err(m@)),
            RouteEvent::Uuid(Ok(u)) => RouteEventView::Uuid(Ok(u@)),
            RouteEvent::Uuid(Err(m)) => RouteEventView::Uuid(Err(m@)),
        }
    }
}

impl View for RouteAction {
    type V = RouteActionView;

    open spec fn view(&self) -> RouteActionView {
        match self {
            RouteAction::Run(args) => RouteActionView::Run(views(args@)),
            RouteAction::ExtractUuid { stdout, stderr, name } => RouteActionView::ExtractUuid(
                stdout@,
                stderr@,
                name@,
            ),
            RouteAction::Finish(Ok(m)) => RouteActionView::Finish(Ok(m@)),
            RouteAction::Finish(Err(m)) => RouteActionView::Finish(Err(m@)),
        }
    }
}

/// The event a stage waits for: command output while creating, routing and
/// rolling back, the UUID while extracting, nothing once done.
pub open spec fn awaits(stage: RouteStage, event: RouteEventView) -> bool {
    match stage {
        RouteStage::Creating | RouteStage::Routing | RouteStage::RollingBack => event is Output,
        RouteStage::Extracting => event is Uuid,
        RouteStage::Done => false,
    }
}

/// The message of a completed flow.
pub open spec fn route_success(name: Seq<char>, uuid: Seq<char>, domain: Seq<char>) -> Seq<char> {
    "✅ 隧道 ["@ + name + "] 已创建并绑定 DNS！\n   UUID: "@ + uuid + "\n   CNAME 已强制覆盖写入: "@
        + domain
}

/// The command line that binds `domain` to the tunnel `uuid`, overwriting any record.
pub open spec fn route_dns_args(uuid: Seq<char>, domain: Seq<char>) -> Seq<Seq<char>> {
    seq!["tunnel"@, "route"@, "dns"@, "-f"@, uuid, domain]
}

/// The command line that deletes the tunnel `uuid` again.
pub open spec fn rollback_args(uuid: Seq<char>) -> Seq<Seq<char>> {
    seq!["tunnel"@, "delete"@, "-f"@, uuid]
}

/// The message of a failed binding.
pub open spec fn route_failure(uuid: Seq<char>, m: Seq<char>) -> Seq<char> {
    "[阶段 2 / DNS 绑定] 失败 (UUID: "@ + uuid + "):\n"@ + m
}

/// The note added when deleting the tunnel again failed too.
pub open spec fn rollback_failure(m: Seq<char>) -> Seq<char> {
    "\n[回滚] 删除隧道失败:\n"@ + m
}

/// One step of the flow.
pub open spec fn route_next(s: RouteStateView, e: RouteEventView) -> (RouteStateView, RouteActionView) {
    let done = RouteStateView { stage: RouteStage::Done, ..s };
    match (s.stage, e) {
        (RouteStage::Creating, RouteEventView::Output(Ok((out, err)))) => (
            RouteStateView { stage: RouteStage::Extracting, ..s },
            RouteActionView::ExtractUuid(out, err, s.name),
        ),
        (RouteStage::Creating, RouteEventView::Output(Err(m))) => (
            done,
            RouteActionView::Finish(Err("[阶段 1 / 创建隧道] 执行失败:\n"@ + m)),
        ),
        (RouteStage::Extracting, RouteEventView::Uuid(Ok(u))) => (
            RouteStateView { stage: RouteStage::Routing, uuid: u, ..s },
            RouteActionView::Run(route_dns_args(u, s.domain)),
        ),
        (RouteStage::Extracting, RouteEventView::Uuid(Err(m))) => (
            done,
            RouteActionView::Finish(Err("[阶段 1 / UUID 提取] "@ + m)),
        ),
        (RouteStage::Routing, RouteEventView::Output(Ok(_))) => (
            done,
            RouteActionView::Finish(Ok(route_success(s.name, s.uuid, s.domain))),
        ),
        (RouteStage::Routing, RouteEventView::Output(Err(m))) => (
            RouteStateView {
                stage: RouteStage::RollingBack,
                error: route_failure(s.uuid, m),
                ..s
            },
            RouteActionView::Run(rollback_args(s.uuid)),
        ),
        (RouteStage::RollingBack, RouteEventView::Output(Ok(_))) => (
            done,
            RouteActionView::Finish(Err(s.error)),
        ),
        (RouteStage::RollingBack, RouteEventView::Output(Err(m))) => (
            done,
            RouteActionView::Finish(Err(s.error + rollback_failure(m))),
        ),
        _ => (done, RouteActionView::Finish(Err(seq![]))),
    }
}

/// Starts the flow for a tunnel name and a domain (both trimmed): the first
/// action runs `tunnel create <name>`. A blank name or domain is refused.
pub fn route_start(tunnel_name: &str, domain: &str) -> (res: Result<(RouteState, RouteAction), String>)
    ensures
        match res {
            Ok((s, a)) => {
                &&& trimmed(tunnel_name@).len() > 0 && trimmed(domain@).len() > 0
                &&& s@ == RouteStateView {
                    stage: RouteStage::Creating,
                    name: trimmed(tunnel_name@),
                    domain: trimmed(domain@),
                    uuid: seq![],
                    error: seq![],
                }
                &&& a@ == RouteActionView::Run(seq!["tunnel"@, "create"@, trimmed(tunnel_name@)])
            },
            Err(e) => if trimmed(tunnel_name@).len() == 0 {
                e@ == "隧道名不能为空"@
            } else {
                trimmed(domain@).len() == 0 && e@ == "域名不能为空"@
            },
        },
{
    let name = trim_str(tunnel_name);
    let dom = trim_str(domain);
    if name.is_empty() {
        return Err(owned("隧道名不能为空"));
    }
    if dom.is_empty() {
        return Err(owned("域名不能为空"));
    }
    let mut args: Vec<String> = Vec::new();
    args.push(owned("tunnel"));
    args.push(owned("create"));
    args.push(owned(name));
    assert(views(args@) =~= seq!["tunnel"@, "create"@, trimmed(tunnel_name@)]);
    let state = RouteState {
        stage: RouteStage::Creating,
        name: owned(name),
        domain: owned(dom),
        uuid: String::new(),
        error: String::new(),
    };
    Ok((state, RouteAction::Run(args)))
}

/// Whether `state` waits for `event`.
pub fn route_awaits(state: &RouteState, event: &RouteEvent) -> (res: bool)
    ensures
        res == awaits(state.stage, event@),
{
    match state.stage {
        RouteStage::Creating | RouteStage::Routing | RouteStage::RollingBack => match event {
            RouteEvent::Output(_) => true,
            RouteEvent::Uuid(_) => false,
        },
        RouteStage::Extracting => match event {
            RouteEvent::Output(_) => false,
            RouteEvent::Uuid(_) => true,
        },
        RouteStage::Done => false,
    }
}

/// Feeds the outcome of the last action into the flow.
pub fn route_step(state: RouteState, event: RouteEvent) -> (res: (RouteState, RouteAction))
    requires
        awaits(state.stage, event@),
    ensures
        (res.0@, res.1@) == route_next(state@, event@),
{
    let RouteState { stage, name, domain, uuid, error } = state;
    match (stage, event) {
        (RouteStage::Creating, RouteEvent::Output(Ok((out, err)))) => {
            let n = name.clone();
            (
                RouteState { stage: RouteStage::Extracting, name, domain, uuid, error },
                RouteAction::ExtractUuid { stdout: out, stderr: err, name: n },
            )
        },
        (RouteStage::Creating, RouteEvent::Output(Err(m))) => {
            let msg = concat2("[阶段 1 / 创建隧道] 执行失败:\n", m.as_str());
            (
                RouteState { stage: RouteStage::Done, name, domain, uuid, error },
                RouteAction::Finish(Err(msg)),
            )
        },
        (RouteStage::Extracting, RouteEvent::Uuid(Ok(u))) => {
            let mut args: Vec<String> = Vec::new();
            args.push(owned("tunnel"));
            args.push(owned("route"));
            args.push(owned("dns"));
            args.push(owned("-f"));
            args.push(u.clone());
            args.push(domain.clone());
            assert(views(args@) =~= route_dns_args(u@, domain@));
            (
                RouteState { stage: RouteStage::Routing, name, domain, uuid: u, error },
                RouteAction::Run(args),
            )
        },
        (RouteStage::Extracting, RouteEvent::Uuid(Err(m))) => {
            let msg = concat2("[阶段 1 / UUID 提取] ", m.as_str());
            (
                RouteState { stage: RouteStage::Done, name, domain, uuid, error },
                RouteAction::Finish(Err(msg)),
            )
        },
        (RouteStage::Routing, RouteEvent::Output(Ok(_))) => {
            let mut msg = concat3("✅ 隧道 [", name.as_str(), "] 已创建并绑定 DNS！\n   UUID: ");
            msg.append(uuid.as_str());
            msg.append("\n   CNAME 已强制覆盖写入: ");
            msg.append(domain.as_str());
            (
                RouteState { stage: RouteStage::Done, name, domain, uuid, error },
                RouteAction::Finish(Ok(msg)),
            )
        },
        (RouteStage::Routing, RouteEvent::Output(Err(m))) => {
            let mut msg = concat3("[阶段 2 / DNS 绑定] 失败 (UUID: ", uuid.as_str(), "):\n");
            msg.append(m.as_str());
            let mut args: Vec<String> = Vec::new();
            args.push(owned("tunnel"));
            args.push(owned("delete"));
            args.push(owned("-f"));
            args.push(uuid.clone());
            assert(views(args@) =~= rollback_args(uuid@));
            (
                RouteState { stage: RouteStage::RollingBack, name, domain, uuid, error: msg },
                RouteAction::Run(args),
            )
        },
        (RouteStage::RollingBack, RouteEvent::Output(Ok(_))) => {
            let msg = owned(error.as_str());
            (
                RouteState { stage: RouteStage::Done, name, domain, uuid, error },
                RouteAction::Finish(Err(msg)),
            )
        },
        (RouteStage::RollingBack, RouteEvent::Output(Err(m))) => {
            let msg = concat3(error.as_str(), "\n[回滚] 删除隧道失败:\n", m.as_str());
            assert(msg@ =~= error@ + rollback_failure(m@));
            (
                RouteState { stage: RouteStage::Done, name, domain, uuid, error },
                RouteAction::Finish(Err(msg)),
            )
        },
        (_, _) => {
            (
                RouteState { stage: RouteStage::Done, name, domain, uuid, error },
                RouteAction::Finish(Err(String::new())),
            )
        },
    }
}

/// Run through without a failure, the flow creates the tunnel, looks up its
/// UUID, binds the domain to that UUID and reports all three.
pub proof fn lemma_route_success_path(
    s: RouteStateView,
    out1: Seq<char>,
    err1: Seq<char>,
    uuid: Seq<char>,
    out2: Seq<char>,
    err2: Seq<char>,
)
    requires
        s.stage == RouteStage::Creating,
    ensures
        ({
            let (s1, a1) = route_next(s, RouteEventView::Output(Ok((out1, err1))));
            let (s2, a2) = route_next(s1, RouteEventView::Uuid(Ok(uuid)));
            let (s3, a3) = route_next(s2, RouteEventView::Output(Ok((out2, err2))));
            &&& a1 == RouteActionView::ExtractUuid(out1, err1, s.name)
            &&& a2 == RouteActionView::Run(route_dns_args(uuid, s.domain))
            &&& a3 == RouteActionView::Finish(Ok(route_success(s.name, uuid, s.domain)))
            &&& s3.stage == RouteStage::Done
        }),
{
}

/// The operation is all or nothing: when binding the domain to the new tunnel
/// fails, the next command deletes that tunnel, and whatever that deletion
/// gives, the flow then ends with the binding's failure, and waits for nothing.
pub proof fn lemma_route_rolls_back(s: RouteStateView, m: Seq<char>, e: RouteEventView)
    requires
        s.stage == RouteStage::Routing,
        e is Output,
    ensures
        ({
            let (s1, a1) = route_next(s, RouteEventView::Output(Err(m)));
            let (s2, a2) = route_next(s1, e);
            &&& a1 == RouteActionView::Run(rollback_args(s.uuid))
            &&& awaits(s1.stage, e)
            &&& s2.stage == RouteStage::Done
            &&& a2 matches RouteActionView::Finish(Err(t)) && t == route_failure(s.uuid, m) + (
            match e {
                RouteEventView::Output(Err(r)) => rollback_failure(r),
                _ => seq![],
            })
            &&& forall|e2: RouteEventView| !awaits(#[trigger] s2.stage, e2)
        }),
{
    let (s1, a1) = route_next(s, RouteEventView::Output(Err(m)));
    if let RouteEventView::Output(Ok(_)) = e {
        assert(route_failure(s.uuid, m) + Seq::<char>::empty() =~= route_failure(s.uuid, m));
    }
}

/// A failure before anything was created ends the flow with an error, and
/// nothing is awaited afterwards.
pub proof fn lemma_route_failure_ends(s: RouteStateView, e: RouteEventView)
    requires
        awaits(s.stage, e),
        s.stage != RouteStage::Routing,
        e matches RouteEventView::Output(Err(_)) || e matches RouteEventView::Uuid(Err(_)),
    ensures
        route_next(s, e).0.stage == RouteStage::Done,
        route_next(s, e).1 matches RouteActionView::Finish(Err(_)),
        forall|e2: RouteEventView| !awaits(#[trigger] route_next(s, e).0.stage, e2),
{
}

} // verus!
