//! Routing a unified command to its handler or workflow, and wrapping the
//! resulting events in envelopes.

use vstd::prelude::*;

use crate::amount::{dec_gt, Amount};
use crate::checks::{Check, CheckEvent, CheckStatus};
use crate::envelope::{
    event_aggregate, CommandEnvelope, CoreCommand, CoreContext, CoreEvent,
    EventEnvelope, WorkflowCommand,
};
use crate::handler::{
    check_command_fits, check_decision, check_opt, handle_check_command, handle_order_command,
    handle_table_command, order_decision, order_opt_view, outcome, table_decision, table_opt,
};
use crate::ids::{is_v4_uuid, ActorID, PosError, PosErrorView};
use crate::orders::OrderEvent;
use crate::tables::{TableEvent, TableStatus};
use crate::totals::{balance_due_value, totals, totals_fit};
use crate::versioning::SCHEMA_VERSION;
use crate::workflows::{move_decision, move_events, split_check_create, split_check_move_line_qty};

verus! {

pub open spec fn wrap_order(s: Seq<OrderEvent>) -> Seq<CoreEvent> {
    s.map_values(|e: OrderEvent| CoreEvent::Order(e))
}

pub open spec fn wrap_check(s: Seq<CheckEvent>) -> Seq<CoreEvent> {
    s.map_values(|e: CheckEvent| CoreEvent::Check(e))
}

pub open spec fn wrap_table(s: Seq<TableEvent>) -> Seq<CoreEvent> {
    s.map_values(|e: TableEvent| CoreEvent::Table(e))
}

pub open spec fn map_outcome<E>(
    r: Result<Seq<E>, PosErrorView>,
    f: spec_fn(Seq<E>) -> Seq<CoreEvent>,
) -> Result<Seq<CoreEvent>, PosErrorView> {
    match r {
        Ok(s) => Ok(f(s)),
        Err(e) => Err(e),
    }
}

fn wrap_order_events(evs: Vec<OrderEvent>) -> (r: Vec<CoreEvent>)
    ensures
        r@ == wrap_order(evs@),
{
    let ghost orig = evs@;
    let mut evs = evs;
    let mut out: Vec<CoreEvent> = Vec::new();
    while evs.len() > 0
        invariant
            out@.len() + evs@.len() == orig.len(),
            out@ == wrap_order(orig.take(out@.len() as int)),
            evs@ == orig.skip(out@.len() as int),
        decreases evs.len(),
    {
        let ghost k = out@.len() as int;
        let e = evs.remove(0);
        out.push(CoreEvent::Order(e));
        assert(orig.skip(k + 1) =~= orig.skip(k).drop_first());
        assert(wrap_order(orig.take(k + 1)) =~= wrap_order(orig.take(k)).push(
            CoreEvent::Order(orig[k]),
        ));
    }
    assert(orig.take(orig.len() as int) =~= orig);
    out
}

fn wrap_check_events(evs: Vec<CheckEvent>) -> (r: Vec<CoreEvent>)
    ensures
        r@ == wrap_check(evs@),
{
    let ghost orig = evs@;
    let mut evs = evs;
    let mut out: Vec<CoreEvent> = Vec::new();
    while evs.len() > 0
        invariant
            out@.len() + evs@.len() == orig.len(),
            out@ == wrap_check(orig.take(out@.len() as int)),
            evs@ == orig.skip(out@.len() as int),
        decreases evs.len(),
    {
        let ghost k = out@.len() as int;
        let e = evs.remove(0);
        out.push(CoreEvent::Check(e));
        assert(orig.skip(k + 1) =~= orig.skip(k).drop_first());
        assert(wrap_check(orig.take(k + 1)) =~= wrap_check(orig.take(k)).push(
            CoreEvent::Check(orig[k]),
        ));
    }
    assert(orig.take(orig.len() as int) =~= orig);
    out
}

fn wrap_table_events(evs: Vec<TableEvent>) -> (r: Vec<CoreEvent>)
    ensures
        r@ == wrap_table(evs@),
{
    let ghost orig = evs@;
    let mut evs = evs;
    let mut out: Vec<CoreEvent> = Vec::new();
    while evs.len() > 0
        invariant
            out@.len() + evs@.len() == orig.len(),
            out@ == wrap_table(orig.take(out@.len() as int)),
            evs@ == orig.skip(out@.len() as int),
        decreases evs.len(),
    {
        let ghost k = out@.len() as int;
        let e = evs.remove(0);
        out.push(CoreEvent::Table(e));
        assert(orig.skip(k + 1) =~= orig.skip(k).drop_first());
        assert(wrap_table(orig.take(k + 1)) =~= wrap_table(orig.take(k)).push(
            CoreEvent::Table(orig[k]),
        ));
    }
    assert(orig.take(orig.len() as int) =~= orig);
    out
}

/// The decimal work that routing `cmd` does is exact: that of the check
/// handler, and the totals of the check whose table session is being closed.
pub open spec fn route_fits(ctx: CoreContext, cmd: CoreCommand) -> bool {
    match cmd {
        CoreCommand::Check(c) => check_command_fits(check_opt(ctx.check), c),
        CoreCommand::Workflow(WorkflowCommand::CloseTableSession { .. }) => match ctx.check {
            Some(c) => totals_fit(*c),
            None => true,
        },
        _ => true,
    }
}

/// What opening a table session decides: a new order and check, and the
/// order assigned to the table.
pub open spec fn open_session_decision(ctx: CoreContext, w: WorkflowCommand) -> Result<
    Seq<CoreEvent>,
    PosErrorView,
> {
    match w {
        WorkflowCommand::OpenTableSession { venue_id, table_id, order_id, check_id } => {
            if ctx.table is None {
                Err(PosErrorView::NotFound("table not provided in CoreContext"@))
            } else if ctx.table->0.table_id != table_id {
                Err(PosErrorView::Validation("table_id does not match provided table aggregate"@))
            } else if ctx.table->0.status == TableStatus::Closed {
                Err(PosErrorView::Validation("table is closed"@))
            } else if ctx.table->0.active_order_id is Some {
                Err(PosErrorView::Validation("table already has an active order"@))
            } else if ctx.order is Some && ctx.order->0.order_id == order_id {
                Err(PosErrorView::Conflict("order_id already exists"@))
            } else if ctx.check is Some && ctx.check->0.check_id == check_id {
                Err(PosErrorView::Conflict("check_id already exists"@))
            } else {
                Ok(
                    seq![
                        CoreEvent::Order(OrderEvent::OrderOpened { venue_id, order_id }),
                        CoreEvent::Check(CheckEvent::CheckOpened { venue_id, check_id, order_id }),
                        CoreEvent::Table(
                            TableEvent::OrderAssignedToTable { venue_id, table_id, order_id },
                        ),
                    ],
                )
            }
        },
        _ => Err(PosErrorView::Validation(Seq::empty())),
    }
}

/// What closing a table session decides: the paid check is closed (if still
/// open) and the order leaves the table.
pub open spec fn close_session_decision(ctx: CoreContext, w: WorkflowCommand) -> Result<
    Seq<CoreEvent>,
    PosErrorView,
> {
    match w {
        WorkflowCommand::CloseTableSession { venue_id, table_id, order_id, check_id, reason } => {
            if ctx.table is None {
                Err(PosErrorView::NotFound("table not provided in CoreContext"@))
            } else if ctx.check is None {
                Err(PosErrorView::NotFound("check not provided in CoreContext"@))
            } else if ctx.table->0.table_id != table_id {
                Err(PosErrorView::Validation("table_id does not match provided table aggregate"@))
            } else if ctx.check->0.check_id != check_id {
                Err(PosErrorView::Validation("check_id does not match provided check aggregate"@))
            } else if ctx.table->0.active_order_id != Some(order_id) {
                Err(PosErrorView::Validation("table active_order_id does not match order_id"@))
            } else if ctx.check->0.order_id != order_id {
                Err(PosErrorView::Validation("check does not belong to order_id"@))
            } else if balance_due_value(ctx.check->0@) > 0 {
                Err(PosErrorView::Validation("cannot close table session with unpaid check"@))
            } else {
                let unassign = CoreEvent::Table(
                    TableEvent::OrderUnassingedFromTable { venue_id, table_id, reason },
                );
                if ctx.check->0.status == CheckStatus::Open {
                    Ok(
                        seq![
                            CoreEvent::Check(CheckEvent::CheckClosed { venue_id, check_id }),
                            unassign,
                        ],
                    )
                } else {
                    Ok(seq![unassign])
                }
            }
        },
        _ => Err(PosErrorView::Validation(Seq::empty())),
    }
}

/// What the router decides, for every command but a move between split
/// checks (whose reason text is described by `move_events`).
pub open spec fn route_decision(ctx: CoreContext, cmd: CoreCommand) -> Result<
    Seq<CoreEvent>,
    PosErrorView,
> {
    match cmd {
        CoreCommand::Order(c) => map_outcome(
            order_decision(order_opt_view(ctx.order), c),
            |s: Seq<OrderEvent>| wrap_order(s),
        ),
        CoreCommand::Check(c) => map_outcome(
            check_decision(check_opt(ctx.check), c),
            |s: Seq<CheckEvent>| wrap_check(s),
        ),
        CoreCommand::Table(c) => map_outcome(
            table_decision(table_opt(ctx.table), c),
            |s: Seq<TableEvent>| wrap_table(s),
        ),
        CoreCommand::Workflow(w) => match w {
            WorkflowCommand::SplitCheckCreate { venue_id, from_check_id, new_check_id } => {
                if ctx.check is None {
                    Err(PosErrorView::NotFound("from_check not provided in CoreContext"@))
                } else if ctx.check->0.check_id != from_check_id {
                    Err(
                        PosErrorView::Validation(
                            "from_check_id does not match provided check aggregate"@,
                        ),
                    )
                } else {
                    Ok(
                        seq![
                            CoreEvent::Check(
                                CheckEvent::CheckOpened {
                                    venue_id,
                                    check_id: new_check_id,
                                    order_id: ctx.check->0.order_id,
                                },
                            ),
                            CoreEvent::Check(
                                CheckEvent::SplitCheckCreated {
                                    venue_id,
                                    check_id: new_check_id,
                                    from_check_id: ctx.check->0.check_id,
                                },
                            ),
                        ],
                    )
                }
            },
            WorkflowCommand::SplitCheckMoveLineQty { .. } => Err(
                PosErrorView::Validation(Seq::empty()),
            ),
            WorkflowCommand::OpenTableSession { .. } => open_session_decision(ctx, w),
            WorkflowCommand::CloseTableSession { .. } => close_session_decision(ctx, w),
        },
    }
}

/// Routed events of a move between split checks: the two check events of
/// `move_events`.
pub open spec fn moved_ok(
    r: Result<Seq<CoreEvent>, PosErrorView>,
    from: Check,
    to: Check,
    venue_id: crate::ids::VenueID,
    order_item_id: crate::ids::OrderItemID,
    qty: u32,
) -> bool {
    match r {
        Ok(s) => s.len() == 2 && match (s[0], s[1]) {
            (CoreEvent::Check(a), CoreEvent::Check(b)) => move_events(
                seq![a, b],
                from,
                to,
                venue_id,
                order_item_id,
                qty,
            ),
            _ => false,
        },
        Err(_) => false,
    }
}

/// The router's outcome for a command: as `route_decision` says, and for a
/// move between split checks, the checks provided must be the ones named and
/// the events are those of `move_events`.
pub open spec fn route_outcome(
    ctx: CoreContext,
    cmd: CoreCommand,
    r: Result<Seq<CoreEvent>, PosErrorView>,
) -> bool {
    match cmd {
        CoreCommand::Workflow(
            WorkflowCommand::SplitCheckMoveLineQty {
                venue_id,
                from_check_id,
                to_check_id,
                order_item_id,
                qty,
            },
        ) => {
            if ctx.check is None {
                r == Err::<Seq<CoreEvent>, PosErrorView>(
                    PosErrorView::NotFound("from_check not provided in CoreContext"@),
                )
            } else if ctx.to_check is None {
                r == Err::<Seq<CoreEvent>, PosErrorView>(
                    PosErrorView::NotFound("to_check not provided in CoreContext"@),
                )
            } else if ctx.check->0.check_id != from_check_id {
                r == Err::<Seq<CoreEvent>, PosErrorView>(
                    PosErrorView::Validation(
                        "from_check_id does not match provided check aggregate"@,
                    ),
                )
            } else if ctx.to_check->0.check_id != to_check_id {
                r == Err::<Seq<CoreEvent>, PosErrorView>(
                    PosErrorView::Validation("to_check_id does not match provided check aggregate"@),
                )
            } else {
                let from = *ctx.check->0;
                let to = *ctx.to_check->0;
                match move_decision(from, to, venue_id, order_item_id, qty) {
                    Err(e) => r == Err::<Seq<CoreEvent>, PosErrorView>(e),
                    Ok(_) => moved_ok(r, from, to, venue_id, order_item_id, qty),
                }
            }
        },
        _ => r == route_decision(ctx, cmd),
    }
}

fn route_workflow(ctx: CoreContext<'_>, cmd: WorkflowCommand) -> (r: Result<
    Vec<CoreEvent>,
    PosError,
>)
    requires
        route_fits(ctx, CoreCommand::Workflow(cmd)),
    ensures
        route_outcome(ctx, CoreCommand::Workflow(cmd), outcome(r)),
{
    match cmd {
        WorkflowCommand::SplitCheckCreate { venue_id, from_check_id, new_check_id } => {
            let from = match ctx.check {
                Some(c) => c,
                None => return Err(PosError::not_found("from_check not provided in CoreContext")),
            };
            if from.check_id != from_check_id {
                return Err(
                    PosError::validation("from_check_id does not match provided check aggregate"),
                );
            }
            match split_check_create(from, venue_id, new_check_id) {
                Ok(evs) => {
                    let out = wrap_check_events(evs);
                    assert(out@ =~= seq![
                        CoreEvent::Check(
                            CheckEvent::CheckOpened {
                                venue_id,
                                check_id: new_check_id,
                                order_id: from.order_id,
                            },
                        ),
                        CoreEvent::Check(
                            CheckEvent::SplitCheckCreated {
                                venue_id,
                                check_id: new_check_id,
                                from_check_id: from.check_id,
                            },
                        ),
                    ]);
                    Ok(out)
                },
                Err(e) => Err(e),
            }
        },
        WorkflowCommand::SplitCheckMoveLineQty {
            venue_id,
            from_check_id,
            to_check_id,
            order_item_id,
            qty,
        } => {
            let from = match ctx.check {
                Some(c) => c,
                None => return Err(PosError::not_found("from_check not provided in CoreContext")),
            };
            let to = match ctx.to_check {
                Some(c) => c,
                None => return Err(PosError::not_found("to_check not provided in CoreContext")),
            };
            if from.check_id != from_check_id {
                return Err(
                    PosError::validation("from_check_id does not match provided check aggregate"),
                );
            }
            if to.check_id != to_check_id {
                return Err(
                    PosError::validation("to_check_id does not match provided check aggregate"),
                );
            }
            match split_check_move_line_qty(from, to, venue_id, order_item_id, qty) {
                Ok(evs) => {
                    let ghost s = evs@;
                    let out = wrap_check_events(evs);
                    assert(seq![s[0], s[1]] =~= s);
                    Ok(out)
                },
                Err(e) => Err(e),
            }
        },
        WorkflowCommand::OpenTableSession { venue_id, table_id, order_id, check_id } => {
            let table = match ctx.table {
                Some(t) => t,
                None => return Err(PosError::not_found("table not provided in CoreContext")),
            };
            if table.table_id != table_id {
                return Err(
                    PosError::validation("table_id does not match provided table aggregate"),
                );
            }
            if table.status == TableStatus::Closed {
                return Err(PosError::validation("table is closed"));
            }
            if table.active_order_id.is_some() {
                return Err(PosError::validation("table already has an active order"));
            }
            if let Some(o) = ctx.order {
                if o.order_id == order_id {
                    return Err(PosError::conflict("order_id already exists"));
                }
            }
            if let Some(c) = ctx.check {
                if c.check_id == check_id {
                    return Err(PosError::conflict("check_id already exists"));
                }
            }
            let mut out: Vec<CoreEvent> = Vec::new();
            out.push(CoreEvent::Order(OrderEvent::OrderOpened { venue_id, order_id }));
            out.push(CoreEvent::Check(CheckEvent::CheckOpened { venue_id, check_id, order_id }));
            out.push(
                CoreEvent::Table(TableEvent::OrderAssignedToTable { venue_id, table_id, order_id }),
            );
            assert(out@ =~= seq![
                CoreEvent::Order(OrderEvent::OrderOpened { venue_id, order_id }),
                CoreEvent::Check(CheckEvent::CheckOpened { venue_id, check_id, order_id }),
                CoreEvent::Table(TableEvent::OrderAssignedToTable { venue_id, table_id, order_id }),
            ]);
            Ok(out)
        },
        WorkflowCommand::CloseTableSession { venue_id, table_id, order_id, check_id, reason } => {
            let table = match ctx.table {
                Some(t) => t,
                None => return Err(PosError::not_found("table not provided in CoreContext")),
            };
            let check = match ctx.check {
                Some(c) => c,
                None => return Err(PosError::not_found("check not provided in CoreContext")),
            };
            if table.table_id != table_id {
                return Err(
                    PosError::validation("table_id does not match provided table aggregate"),
                );
            }
            if check.check_id != check_id {
                return Err(
                    PosError::validation("check_id does not match provided check aggregate"),
                );
            }
            let matches_table = match table.active_order_id {
                Some(id) => id == order_id,
                None => false,
            };
            if !matches_table {
                return Err(PosError::validation("table active_order_id does not match order_id"));
            }
            if check.order_id != order_id {
                return Err(PosError::validation("check does not belong to order_id"));
            }
            // The check must be paid before the session closes.
            let t = totals(check);
            if dec_gt(t.balance_due.amount, Amount::zero()) {
                return Err(PosError::validation("cannot close table session with unpaid check"));
            }
            let mut out: Vec<CoreEvent> = Vec::new();
            if check.status == CheckStatus::Open {
                out.push(CoreEvent::Check(CheckEvent::CheckClosed { venue_id, check_id }));
            }
            let ghost before = out@;
            out.push(
                CoreEvent::Table(
                    TableEvent::OrderUnassingedFromTable { venue_id, table_id, reason },
                ),
            );
            proof {
                let unassign = CoreEvent::Table(
                    TableEvent::OrderUnassingedFromTable { venue_id, table_id, reason },
                );
                if check.status == CheckStatus::Open {
                    assert(out@ =~= seq![
                        CoreEvent::Check(CheckEvent::CheckClosed { venue_id, check_id }),
                        unassign,
                    ]);
                } else {
                    assert(out@ =~= seq![unassign]);
                }
            }
            Ok(out)
        },
    }
}

/// Routes a command to the handler of its aggregate, or runs its workflow.
pub fn route_core_command(ctx: CoreContext<'_>, cmd: CoreCommand) -> (r: Result<
    Vec<CoreEvent>,
    PosError,
>)
    requires
        route_fits(ctx, cmd),
    ensures
        route_outcome(ctx, cmd, outcome(r)),
{
    match cmd {
        CoreCommand::Order(c) => {
            match handle_order_command(ctx.order, c) {
                Ok(evs) => Ok(wrap_order_events(evs)),
                Err(e) => Err(e),
            }
        },
        CoreCommand::Check(c) => {
            match handle_check_command(ctx.check, c) {
                Ok(evs) => Ok(wrap_check_events(evs)),
                Err(e) => Err(e),
            }
        },
        CoreCommand::Table(c) => {
            match handle_table_command(ctx.table, c) {
                Ok(evs) => Ok(wrap_table_events(evs)),
                Err(e) => Err(e),
            }
        },
        CoreCommand::Workflow(w) => route_workflow(ctx, w),
    }
}

/// The events inside a sequence of envelopes.
pub open spec fn events_of(out: Seq<EventEnvelope>) -> Seq<CoreEvent> {
    out.map_values(|e: EventEnvelope| e.event)
}

/// `out` wraps `evs` one to one, in order: each envelope holds its event,
/// names the event's aggregate, has the current schema and no sequence
/// number, carries the given tracing, and has a fresh version-4 event id.
pub open spec fn enveloped(
    out: Seq<EventEnvelope>,
    evs: Seq<CoreEvent>,
    causation_id: Option<u128>,
    correlation_id: Option<u128>,
    actor_id: Option<ActorID>,
) -> bool {
    &&& out.len() == evs.len()
    &&& forall|i: int|
        0 <= i < out.len() ==> {
            &&& (#[trigger] out[i]).event == evs[i]
            &&& out[i].aggregate == event_aggregate(evs[i])
            &&& out[i].schema_version == SCHEMA_VERSION
            &&& out[i].seq is None
            &&& out[i].causation_id == causation_id
            &&& out[i].correlation_id == correlation_id
            &&& out[i].actor_id == actor_id
            &&& is_v4_uuid(out[i].event_id)
        }
}

fn envelope_events(
    evs: Vec<CoreEvent>,
    causation_id: Option<u128>,
    correlation_id: Option<u128>,
    actor_id: Option<ActorID>,
) -> (r: Vec<EventEnvelope>)
    ensures
        enveloped(r@, evs@, causation_id, correlation_id, actor_id),
{
    let ghost orig = evs@;
    let mut evs = evs;
    let mut out: Vec<EventEnvelope> = Vec::new();
    while evs.len() > 0
        invariant
            out@.len() + evs@.len() == orig.len(),
            enveloped(out@, orig.take(out@.len() as int), causation_id, correlation_id, actor_id),
            evs@ == orig.skip(out@.len() as int),
        decreases evs.len(),
    {
        let ghost k = out@.len() as int;
        let ev = evs.remove(0);
        let aggregate = ev.aggregate_ref();
        let mut env = EventEnvelope::new(aggregate, ev);
        env.causation_id = causation_id;
        env.correlation_id = correlation_id;
        env.actor_id = actor_id;
        out.push(env);
        assert(orig.skip(k + 1) =~= orig.skip(k).drop_first());
        assert(orig.take(k + 1) =~= orig.take(k).push(orig[k]));
    }
    assert(orig.take(orig.len() as int) =~= orig);
    out
}

/// Routes the command of an envelope and wraps each event in an envelope
/// that carries the command's tracing: its correlation id, the command id as
/// causation id, and its actor. The idempotency key is for the host to dedupe
/// on; the core does not read it.
pub fn route_command_envelope_enveloped(ctx: CoreContext<'_>, env: CommandEnvelope) -> (r: Result<
    Vec<EventEnvelope>,
    PosError,
>)
    requires
        route_fits(ctx, env.command),
    ensures
        r matches Err(e) ==> route_outcome(ctx, env.command, Err(e@)),
        r matches Ok(out) ==> route_outcome(ctx, env.command, Ok(events_of(out@))) && enveloped(
                    out@,
                    events_of(out@),
                    Some(env.command_id),
                    env.correlation_id,
                    env.actor_id,
                ),
{
    let command_id = env.command_id;
    let correlation_id = env.correlation_id;
    let actor_id = env.actor_id;
    let ghost cmd0 = env.command;
    let routed = route_core_command(ctx, env.command);
    let events = match routed {
        Ok(evs) => evs,
        Err(e) => {
            assert(outcome(routed) == Err::<Seq<CoreEvent>, PosErrorView>(e@));
            return Err(e);
        },
    };
    let ghost evs = events@;
    let out = envelope_events(events, Some(command_id), correlation_id, actor_id);
    assert(events_of(out@) =~= evs);
    assert(route_outcome(ctx, cmd0, Ok(evs)) && enveloped(
        out@,
        evs,
        Some(command_id),
        correlation_id,
        actor_id,
    ));
    Ok(out)
}

/// Routes a command and wraps each event in an envelope with the given
/// causation and correlation ids.
pub fn route_core_command_enveloped(
    ctx: CoreContext<'_>,
    cmd: CoreCommand,
    causation_id: Option<u128>,
    correlation_id: Option<u128>,
) -> (r: Result<Vec<EventEnvelope>, PosError>)
    requires
        route_fits(ctx, cmd),
    ensures
        r matches Err(e) ==> route_outcome(ctx, cmd, Err(e@)),
        r matches Ok(out) ==> route_outcome(ctx, cmd, Ok(events_of(out@))) && enveloped(
                    out@,
                    events_of(out@),
                    causation_id,
                    correlation_id,
                    None,
                ),
{
    let ghost cmd0 = cmd;
    let routed = route_core_command(ctx, cmd);
    let events = match routed {
        Ok(evs) => evs,
        Err(e) => {
            assert(outcome(routed) == Err::<Seq<CoreEvent>, PosErrorView>(e@));
            return Err(e);
        },
    };
    let ghost evs = events@;
    let out = envelope_events(events, causation_id, correlation_id, None);
    assert(events_of(out@) =~= evs);
    assert(route_outcome(ctx, cmd0, Ok(evs)) && enveloped(
        out@,
        evs,
        causation_id,
        correlation_id,
        None,
    ));
    Ok(out)
}

} // verus!
