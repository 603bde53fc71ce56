//! What holds of every connect call, whatever the driver answers.

use vstd::prelude::*;

use crate::call_laws::{lemma_keys, lemma_method_names};
use crate::connecting::{
    attach_statement, connect_spec, connect_to, connected, count_sample, create_sample, fill_sample,
    goes_on, reads_version, stores, token_statement, ConnectingView, PlanView,
};
use crate::content_laws::a_member_is_found_under_its_key;
use crate::json::{member, JsonView};
use crate::laws::{actions, run, statements_carry_their_values};
use crate::protocol::{ActionView, EventView, PendingView, ResponseView, StepView};
use crate::quoting::read_literal;
use crate::session::{call_spec, next, CallView, ConnectorView};
use crate::target::{seeds_sample, target_of, token_of, TargetView};

verus! {

/// What can happen on the way to a connection.
pub ghost enum Incident {
    /// The driver fails while it opens what was asked for.
    OpeningFails,
    /// The driver fails while it seeds the sample.
    SeedingFails,
    /// The sample has no rows, or they cannot be counted.
    SampleIsEmpty,
    /// The open connections cannot be reached.
    StateIsPoisoned,
    /// The connection is stored.
    IsStored,
}

/// Whether the answer to what a connect call waits for is the incident.
pub open spec fn is_incident(
    incident: Incident,
    state: ConnectingView,
    event: EventView,
) -> bool {
    match incident {
        Incident::OpeningFails => event is Failed && (state is Opening || state is OpeningMotherDuck
            || state is LoadingExtension || state is ApplyingToken || state is Attaching),
        Incident::SeedingFails => event is Failed && (state is CreatingSample
            || state is CountingSample || state is FillingSample),
        Incident::SampleIsEmpty => state is CountingSample && (event == EventView::Count(None)
            || event == EventView::Count(Some(0i64))),
        Incident::StateIsPoisoned => event is Poisoned,
        Incident::IsStored => state is Storing && event is Done,
    }
}

/// Whether the incident happens in the course of a call.
pub open spec fn happens(incident: Incident, step: StepView, events: Seq<EventView>) -> bool
    decreases events.len(),
{
    match step {
        StepView::Perform(_, PendingView::Connect(state)) => {
            &&& events.len() > 0
            &&& match next(PendingView::Connect(state), events[0]) {
                Some(after) => is_incident(incident, state, events[0]) || happens(
                    incident,
                    after,
                    events.drop_first(),
                ),
                None => false,
            }
        },
        _ => false,
    }
}

/// The code of the failure that a call is answered.
pub open spec fn failure_code(answer: Option<StepView>) -> Option<Seq<char>> {
    match answer {
        Some(StepView::Respond(ResponseView::Failure { code, .. })) => Some(code),
        _ => None,
    }
}

/// Whether a call is answered with a success.
pub open spec fn is_success(answer: Option<StepView>) -> bool {
    answer matches Some(StepView::Respond(ResponseView::Fields(_)))
}

/// The version that the driver gives when it is read: the first text, `unknown` if there is none.
pub open spec fn version_read(events: Seq<EventView>) -> Seq<char>
    decreases events.len(),
{
    if events.len() == 0 {
        "unknown"@
    } else {
        match events[0] {
            EventView::Text(Some(text)) => text,
            EventView::Text(None) => "unknown"@,
            _ => version_read(events.drop_first()),
        }
    }
}

/// The version that a call tells if it succeeds: the one it has read, or will read.
spec fn version_to_tell(step: StepView, events: Seq<EventView>) -> Seq<char> {
    match step {
        StepView::Perform(_, PendingView::Connect(state)) => match state {
            ConnectingView::CreatingSample { version, .. } => version,
            ConnectingView::CountingSample { version, .. } => version,
            ConnectingView::FillingSample { version, .. } => version,
            ConnectingView::Storing { version, .. } => version,
            _ => version_read(events),
        },
        _ => version_read(events),
    }
}

/// Whether an action stores, finds or removes a connection.
pub open spec fn touches_connections(action: ActionView) -> bool {
    action is StoreConnection || action is FindConnection || action is RemoveConnection
}

/// The batches that open a target.
pub open spec fn opening_batches(target: TargetView, token: Option<Seq<char>>) -> Set<Seq<char>> {
    match (target, token) {
        (TargetView::MotherDuck(database), Some(token)) => set![
            "install motherduck; load motherduck;"@,
            token_statement(token),
            attach_statement(database),
        ],
        _ => set![],
    }
}

/// The batches that a call may run.
pub open spec fn may_run(
    target: TargetView,
    token: Option<Seq<char>>,
    plan: PlanView,
    sql: Seq<char>,
) -> bool {
    opening_batches(target, token).contains(sql) || (plan.seed && (sql == create_sample() || sql
        == fill_sample()))
}

/// What holds of every action of a connect call and the state that waits for its answer.
spec fn is_in_order(
    action: ActionView,
    state: ConnectingView,
    target: TargetView,
    token: Option<Seq<char>>,
    plan: PlanView,
) -> bool {
    &&& state.plan() == plan
    &&& action matches ActionView::RunBatch(sql) ==> may_run(target, token, plan, sql)
    &&& action == ActionView::RunBatch(fill_sample()) <==> state is FillingSample
    &&& touches_connections(action) <==> state is Storing
    &&& state is Storing ==> action == ActionView::StoreConnection(plan.connection_id)
    &&& match state {
        ConnectingView::OpeningMotherDuck { database, token: t, .. } => target
            == TargetView::MotherDuck(database) && token == Some(t),
        ConnectingView::LoadingExtension { database, token: t, .. } => target
            == TargetView::MotherDuck(database) && token == Some(t),
        ConnectingView::ApplyingToken { database, .. } => target == TargetView::MotherDuck(database)
            && token is Some,
        ConnectingView::CreatingSample { .. } => plan.seed,
        ConnectingView::CountingSample { .. } => plan.seed,
        ConnectingView::FillingSample { .. } => plan.seed,
        _ => true,
    }
}

/// A step in order, or a failure for want of a token.
spec fn starts_in_order(
    step: StepView,
    target: TargetView,
    token: Option<Seq<char>>,
    plan: PlanView,
) -> bool {
    match step {
        StepView::Perform(action, PendingView::Connect(state)) => is_in_order(
            action,
            state,
            target,
            token,
            plan,
        ),
        StepView::Respond(ResponseView::Failure { code, .. }) => code
            == "connector.invalidRequest"@,
        _ => false,
    }
}

/// The statement that fills the sample is none of the others.
proof fn lemma_filling_is_no_other(database: Seq<char>, token: Seq<char>)
    ensures
        fill_sample() != create_sample(),
        fill_sample() != "install motherduck; load motherduck;"@,
        fill_sample() != token_statement(token),
        fill_sample() != attach_statement(database),
{
    reveal_strlit("insert into customers values (1, 'Kawase Foods'), (2, 'Minato Labs');");
    reveal_strlit("create table if not exists customers (id integer, name varchar);");
    reveal_strlit("install motherduck; load motherduck;");
    reveal_strlit("set motherduck_token = ");
    reveal_strlit("attach 'md:'");
    reveal_strlit("attach ");
    assert(fill_sample()[0] == 'i' && fill_sample()[3] == 'e');
    assert(create_sample()[0] == 'c');
    assert("install motherduck; load motherduck;"@[3] == 't');
    assert(token_statement(token)[0] == 's');
    assert(attach_statement(database)[0] == 'a');
}

proof fn lemma_codes_differ()
    ensures
        "connector.connectFailed"@ != "connector.seedFailed"@,
        "connector.connectFailed"@ != "connector.statePoisoned"@,
        "connector.connectFailed"@ != "connector.invalidRequest"@,
        "connector.seedFailed"@ != "connector.statePoisoned"@,
        "connector.seedFailed"@ != "connector.invalidRequest"@,
        "connector.statePoisoned"@ != "connector.invalidRequest"@,
{
    reveal_strlit("connector.connectFailed");
    reveal_strlit("connector.seedFailed");
    reveal_strlit("connector.statePoisoned");
    reveal_strlit("connector.invalidRequest");
    assert("connector.connectFailed"@[10] == 'c' && "connector.invalidRequest"@[10] == 'i');
    assert("connector.seedFailed"@[11] == 'e' && "connector.statePoisoned"@[11] == 't');
    assert("connector.seedFailed"@[10] == 's' && "connector.statePoisoned"@[10] == 's');
}

/// A connect call that is in order stays so.
proof fn lemma_stays_in_order(
    action: ActionView,
    state: ConnectingView,
    event: EventView,
    target: TargetView,
    token: Option<Seq<char>>,
    plan: PlanView,
)
    requires
        is_in_order(action, state, target, token, plan),
    ensures
        next(PendingView::Connect(state), event) matches Some(StepView::Perform(a, p)) ==> p
            matches PendingView::Connect(s) && is_in_order(a, s, target, token, plan),
{
    if let (TargetView::MotherDuck(database), Some(t)) = (target, token) {
        lemma_filling_is_no_other(database, t);
    }
    lemma_filling_is_no_other(seq![], seq![]);
}

proof fn lemma_connect_starts_in_order(
    engine: Seq<char>,
    request: JsonView,
    connection_id: Seq<char>,
    environment: Option<Seq<char>>,
)
    ensures
        starts_in_order(
            connect_spec(engine, request, connection_id, environment),
            target_of(request),
            token_of(request, environment),
            PlanView { engine, connection_id, seed: seeds_sample(request, connection_id) },
        ),
{
}

proof fn lemma_answers_tell_what_happened(
    step: StepView,
    events: Seq<EventView>,
    target: TargetView,
    token: Option<Seq<char>>,
    plan: PlanView,
)
    requires
        starts_in_order(step, target, token, plan),
    ensures
        ({
            let answer = run(step, events);
            &&& failure_code(answer) == Some("connector.connectFailed"@) <==> happens(
                Incident::OpeningFails,
                step,
                events,
            )
            &&& failure_code(answer) == Some("connector.seedFailed"@) <==> happens(
                Incident::SeedingFails,
                step,
                events,
            )
            &&& failure_code(answer) == Some("connector.statePoisoned"@) <==> happens(
                Incident::StateIsPoisoned,
                step,
                events,
            )
            &&& failure_code(answer) == Some("connector.invalidRequest"@) <==> step is Respond
            &&& is_success(answer) <==> happens(
                Incident::IsStored,
                step,
                events,
            )
            &&& is_success(answer) ==> answer == Some(
                StepView::Respond(connected(plan, version_to_tell(step, events))),
            )
            &&& answer matches Some(StepView::Respond(response)) ==> !(response is Document)
        }),
    decreases events.len(),
{
    lemma_codes_differ();
    reveal_with_fuel(run, 2);
    reveal_with_fuel(happens, 2);
    if let StepView::Perform(action, PendingView::Connect(state)) = step {
        if events.len() > 0 {
            lemma_stays_in_order(action, state, events[0], target, token, plan);
            if let Some(after) = next(PendingView::Connect(state), events[0]) {
                if after is Perform {
                    lemma_answers_tell_what_happened(
                        after,
                        events.drop_first(),
                        target,
                        token,
                        plan,
                    );
                }
            }
        }
    }
}

/// The answer to a connect call tells what happened. It is `connectFailed` exactly if the driver
/// failed while opening, `seedFailed` exactly if it failed while seeding the sample,
/// `statePoisoned` exactly if the open connections could not be reached, `invalidRequest` exactly
/// if a MotherDuck database was asked for without a token, and a success exactly if the connection
/// was stored. A success tells the engine, the id and the version that the driver gave.
pub proof fn answers_tell_what_happened(
    engine: Seq<char>,
    request: JsonView,
    connection_id: Seq<char>,
    environment: Option<Seq<char>>,
    events: Seq<EventView>,
)
    ensures
        ({
            let start = connect_spec(engine, request, connection_id, environment);
            let plan = PlanView {
                engine,
                connection_id,
                seed: seeds_sample(request, connection_id),
            };
            let answer = run(start, events);
            &&& failure_code(answer) == Some("connector.connectFailed"@) <==> happens(
                Incident::OpeningFails,
                start,
                events,
            )
            &&& failure_code(answer) == Some("connector.seedFailed"@) <==> happens(
                Incident::SeedingFails,
                start,
                events,
            )
            &&& failure_code(answer) == Some("connector.statePoisoned"@) <==> happens(
                Incident::StateIsPoisoned,
                start,
                events,
            )
            &&& failure_code(answer) == Some("connector.invalidRequest"@) <==> target_of(request) is
                MotherDuck && token_of(request, environment) is None
            &&& is_success(answer) <==> happens(
                Incident::IsStored,
                start,
                events,
            )
            &&& is_success(answer) ==> answer == Some(
                StepView::Respond(connected(plan, version_read(events))),
            )
            &&& answer matches Some(StepView::Respond(response)) ==> !(response is Document)
        }),
{
    lemma_connect_starts_in_order(engine, request, connection_id, environment);
    lemma_answers_tell_what_happened(
        connect_spec(engine, request, connection_id, environment),
        events,
        target_of(request),
        token_of(request, environment),
        PlanView { engine, connection_id, seed: seeds_sample(request, connection_id) },
    );
}

proof fn lemma_connections_are_touched_last(
    step: StepView,
    events: Seq<EventView>,
    target: TargetView,
    token: Option<Seq<char>>,
    plan: PlanView,
)
    requires
        starts_in_order(step, target, token, plan),
    ensures
        ({
            let performed = actions(step, events);
            &&& forall|i: int|
                0 <= i < performed.len() && touches_connections(#[trigger] performed[i]) ==> i
                    == performed.len() - 1 && performed[i] == ActionView::StoreConnection(
                    plan.connection_id,
                )
            &&& happens(Incident::OpeningFails, step, events) || happens(
                Incident::SeedingFails,
                step,
                events,
            ) ==> forall|i: int|
                0 <= i < performed.len() ==> !touches_connections(#[trigger] performed[i])
            &&& happens(Incident::IsStored, step, events) ==> performed.len() > 0
                && performed.last() == ActionView::StoreConnection(plan.connection_id)
        }),
    decreases events.len(),
{
    reveal_with_fuel(actions, 2);
    reveal_with_fuel(happens, 2);
    if let StepView::Perform(action, PendingView::Connect(state)) = step {
        if events.len() > 0 {
            let rest = events.drop_first();
            lemma_stays_in_order(action, state, events[0], target, token, plan);
            match next(PendingView::Connect(state), events[0]) {
                Some(after) => {
                    let later = actions(after, rest);
                    assert(actions(step, events) =~= seq![action] + later);
                    if after is Perform {
                        lemma_connections_are_touched_last(after, rest, target, token, plan);
                        assert forall|i: int|
                            0 < i < actions(step, events).len() implies #[trigger] actions(
                            step,
                            events,
                        )[i] == later[i - 1] by {}
                    } else {
                        assert(later =~= seq![]);
                    }
                },
                None => {},
            }
        }
    }
}

/// A connect call leaves the open connections alone until it succeeds: the one action on them is
/// to store the new connection under its id, and it is the last. A call that fails while opening
/// or seeding, or that is refused for want of a token, performs none, so that an older connection
/// under the id stays; a call that succeeds performs it.
pub proof fn only_success_replaces_a_connection(
    engine: Seq<char>,
    request: JsonView,
    connection_id: Seq<char>,
    environment: Option<Seq<char>>,
    events: Seq<EventView>,
)
    ensures
        ({
            let start = connect_spec(engine, request, connection_id, environment);
            let answer = run(start, events);
            let performed = actions(start, events);
            &&& forall|i: int|
                0 <= i < performed.len() && touches_connections(#[trigger] performed[i]) ==> i
                    == performed.len() - 1 && performed[i] == ActionView::StoreConnection(
                    connection_id,
                )
            &&& failure_code(answer) == Some("connector.connectFailed"@) || failure_code(answer)
                == Some("connector.seedFailed"@) || failure_code(answer) == Some(
                "connector.invalidRequest"@,
            ) ==> forall|i: int|
                0 <= i < performed.len() ==> !touches_connections(#[trigger] performed[i])
            &&& is_success(answer) ==> performed.len() > 0 && performed.last()
                == ActionView::StoreConnection(connection_id)
        }),
{
    answers_tell_what_happened(engine, request, connection_id, environment, events);
    lemma_connect_starts_in_order(engine, request, connection_id, environment);
    lemma_connections_are_touched_last(
        connect_spec(engine, request, connection_id, environment),
        events,
        target_of(request),
        token_of(request, environment),
        PlanView { engine, connection_id, seed: seeds_sample(request, connection_id) },
    );
}

proof fn lemma_batches(
    step: StepView,
    events: Seq<EventView>,
    target: TargetView,
    token: Option<Seq<char>>,
    plan: PlanView,
)
    requires
        starts_in_order(step, target, token, plan),
    ensures
        ({
            let performed = actions(step, events);
            let filling = ActionView::RunBatch(fill_sample());
            let fills = step matches StepView::Perform(action, _) && action == filling;
            &&& performed.contains(filling) <==> fills || happens(
                Incident::SampleIsEmpty,
                step,
                events,
            )
            &&& forall|i: int, j: int|
                0 <= i < performed.len() && 0 <= j < performed.len() && #[trigger] performed[i]
                    == filling && #[trigger] performed[j] == filling ==> i == j
            &&& forall|i: int|
                0 <= i < performed.len() ==> (#[trigger] performed[i] matches ActionView::RunBatch(
                    sql,
                ) ==> may_run(target, token, plan, sql))
        }),
    decreases events.len(),
{
    let filling = ActionView::RunBatch(fill_sample());
    reveal_with_fuel(actions, 2);
    reveal_with_fuel(happens, 3);
    if let StepView::Perform(action, PendingView::Connect(state)) = step {
        let performed = actions(step, events);
        assert(performed[0] == action);
        if events.len() > 0 {
            let rest = events.drop_first();
            lemma_stays_in_order(action, state, events[0], target, token, plan);
            match next(PendingView::Connect(state), events[0]) {
                Some(after) => {
                    let later = actions(after, rest);
                    assert(performed =~= seq![action] + later);
                    if after is Perform {
                        lemma_batches(after, rest, target, token, plan);
                        assert forall|i: int| 0 < i < performed.len() implies #[trigger] performed[i]
                            == later[i - 1] by {}
                        if later.contains(filling) {
                            let k = choose|k: int|
                                0 <= k < later.len() && #[trigger] later[k] == filling;
                            assert(performed[k + 1] == filling);
                        }
                    } else {
                        assert(later =~= seq![]);
                    }
                },
                None => {},
            }
        }
    }
}

/// The sample is filled only where it has no rows: among the batches that a connect call runs is
/// the one that fills the sample exactly if the count was zero or could not be read, and then
/// once. The call runs no other batches than those that open its target, and, if it seeds the
/// sample, the one that creates its table.
pub proof fn only_an_empty_sample_is_filled(
    engine: Seq<char>,
    request: JsonView,
    connection_id: Seq<char>,
    environment: Option<Seq<char>>,
    events: Seq<EventView>,
)
    ensures
        ({
            let start = connect_spec(engine, request, connection_id, environment);
            let performed = actions(start, events);
            let filling = ActionView::RunBatch(fill_sample());
            let opening = opening_batches(target_of(request), token_of(request, environment));
            &&& performed.contains(filling) <==> happens(Incident::SampleIsEmpty, start, events)
            &&& forall|i: int, j: int|
                0 <= i < performed.len() && 0 <= j < performed.len() && #[trigger] performed[i]
                    == filling && #[trigger] performed[j] == filling ==> i == j
            &&& forall|i: int|
                0 <= i < performed.len() ==> (#[trigger] performed[i] matches ActionView::RunBatch(
                    sql,
                ) ==> opening.contains(sql) || (seeds_sample(request, connection_id) && (sql
                    == create_sample() || sql == fill_sample())))
            &&& !opening.contains(fill_sample())
        }),
{
    if let (TargetView::MotherDuck(database), Some(token)) = (
        target_of(request),
        token_of(request, environment),
    ) {
        lemma_filling_is_no_other(database, token);
    }
    lemma_connect_starts_in_order(engine, request, connection_id, environment);
    lemma_batches(
        connect_spec(engine, request, connection_id, environment),
        events,
        target_of(request),
        token_of(request, environment),
        PlanView { engine, connection_id, seed: seeds_sample(request, connection_id) },
    );
}

/// A row of the sample: an id and a name.
pub type SampleRow = (int, Seq<char>);

/// The rows that fill the sample.
pub open spec fn sample_rows() -> Seq<SampleRow> {
    seq![(1, "Kawase Foods"@), (2, "Minato Labs"@)]
}

/// The rows of the sample after the actions, in an engine that adds the rows of the sample for the
/// statement that fills it, and for which the others of a connect call, among them the one that
/// creates the table where there is none, leave the rows as they are.
pub open spec fn rows_after(rows: Seq<SampleRow>, performed: Seq<ActionView>) -> Seq<SampleRow>
    decreases performed.len(),
{
    if performed.len() == 0 {
        rows
    } else {
        rows_after(
            if performed[0] == ActionView::RunBatch(fill_sample()) {
                rows + sample_rows()
            } else {
                rows
            },
            performed.drop_first(),
        )
    }
}

/// The step that begins to seed the sample.
pub open spec fn begins_seeding(plan: PlanView, version: Seq<char>) -> StepView {
    goes_on(
        ActionView::RunBatch(create_sample()),
        ConnectingView::CreatingSample { plan, version },
    )
}

/// Whether the sample, with these rows before, is seeded to the end: the connection is to be
/// stored, and the rows were counted as many as they are.
pub open spec fn is_seeded(
    plan: PlanView,
    version: Seq<char>,
    rows: Seq<SampleRow>,
    events: Seq<EventView>,
) -> bool {
    &&& run(begins_seeding(plan, version), events) == Some(stores(plan, version))
    &&& events.len() > 1
    &&& events[1] matches EventView::Count(Some(count)) && count == rows.len()
}

/// Seeding fills a sample without rows with exactly the rows of the sample, and leaves one that has
/// rows as it is.
pub proof fn seeding_fills_an_empty_sample(
    plan: PlanView,
    version: Seq<char>,
    rows: Seq<SampleRow>,
    events: Seq<EventView>,
)
    requires
        is_seeded(plan, version, rows, events),
    ensures
        rows_after(rows, actions(begins_seeding(plan, version), events)) == (if rows.len() == 0 {
            sample_rows()
        } else {
            rows
        }),
{
    lemma_filling_is_no_other(seq![], seq![]);
    reveal_with_fuel(run, 5);
    reveal_with_fuel(actions, 5);
    reveal_with_fuel(rows_after, 5);
    assert(events.drop_first()[0] == events[1]);
    if rows.len() == 0 {
        assert(rows + sample_rows() =~= sample_rows());
    }
}

/// A second seeding changes nothing, whatever the sample held before the first.
pub proof fn seeding_twice_changes_nothing(
    plan: PlanView,
    version: Seq<char>,
    rows: Seq<SampleRow>,
    events: Seq<EventView>,
    plan_again: PlanView,
    version_again: Seq<char>,
    events_again: Seq<EventView>,
)
    requires
        is_seeded(plan, version, rows, events),
        is_seeded(
            plan_again,
            version_again,
            rows_after(rows, actions(begins_seeding(plan, version), events)),
            events_again,
        ),
    ensures
        ({
            let once = rows_after(rows, actions(begins_seeding(plan, version), events));
            rows_after(once, actions(begins_seeding(plan_again, version_again), events_again))
                == once
        }),
{
    let once = rows_after(rows, actions(begins_seeding(plan, version), events));
    seeding_fills_an_empty_sample(plan, version, rows, events);
    seeding_fills_an_empty_sample(plan_again, version_again, once, events_again);
}

proof fn lemma_sample_is_created_and_counted(
    step: StepView,
    events: Seq<EventView>,
    target: TargetView,
    token: Option<Seq<char>>,
    plan: PlanView,
)
    requires
        starts_in_order(step, target, token, plan),
        plan.seed,
        is_success(run(step, events)),
    ensures
        ({
            let performed = actions(step, events);
            let state = step->Perform_1->Connect_0;
            let seeding = state is CreatingSample || state is CountingSample
                || state is FillingSample || state is Storing;
            &&& !seeding ==> performed.contains(ActionView::RunBatch(create_sample()))
            &&& !seeding || state is CreatingSample ==> performed.contains(
                ActionView::ReadCount(count_sample()),
            )
        }),
    decreases events.len(),
{
    if let StepView::Perform(action, PendingView::Connect(state)) = step {
        let rest = events.drop_first();
        lemma_stays_in_order(action, state, events[0], target, token, plan);
        let after = next(PendingView::Connect(state), events[0])->0;
        let later = actions(after, rest);
        let performed = actions(step, events);
        assert(performed =~= seq![action] + later);
        if let StepView::Perform(a, PendingView::Connect(s)) = after {
            lemma_sample_is_created_and_counted(after, rest, target, token, plan);
            assert(later[0] == a);
            assert(performed[1] == a);
            assert forall|x: ActionView| later.contains(x) implies performed.contains(x) by {
                let k = choose|k: int| 0 <= k < later.len() && later[k] == x;
                assert(performed[k + 1] == x);
            }
        }
    }
}

/// A sample that is asked for is seeded: if the request asks for it and the connect call succeeds,
/// the call has run the batch that creates the table and has counted its rows, whatever version the
/// driver told and whatever it counted.
pub proof fn a_sample_that_is_asked_for_is_seeded(
    engine: Seq<char>,
    request: JsonView,
    connection_id: Seq<char>,
    environment: Option<Seq<char>>,
    events: Seq<EventView>,
)
    requires
        seeds_sample(request, connection_id),
        is_success(run(connect_spec(engine, request, connection_id, environment), events)),
    ensures
        ({
            let performed = actions(
                connect_spec(engine, request, connection_id, environment),
                events,
            );
            &&& performed.contains(
                ActionView::RunBatch(
                    "create table if not exists customers (id integer, name varchar);"@,
                ),
            )
            &&& performed.contains(ActionView::ReadCount("select count(*) from customers"@))
        }),
{
    lemma_connect_starts_in_order(engine, request, connection_id, environment);
    lemma_sample_is_created_and_counted(
        connect_spec(engine, request, connection_id, environment),
        events,
        target_of(request),
        token_of(request, environment),
        PlanView { engine, connection_id, seed: seeds_sample(request, connection_id) },
    );
}

proof fn lemma_rows_after(rows: Seq<SampleRow>, performed: Seq<ActionView>)
    requires
        forall|i: int, j: int|
            0 <= i < performed.len() && 0 <= j < performed.len() && #[trigger] performed[i]
                == ActionView::RunBatch(fill_sample()) && #[trigger] performed[j]
                == ActionView::RunBatch(fill_sample()) ==> i == j,
    ensures
        rows_after(rows, performed) == (if performed.contains(
            ActionView::RunBatch(fill_sample()),
        ) {
            rows + sample_rows()
        } else {
            rows
        }),
    decreases performed.len(),
{
    let filling = ActionView::RunBatch(fill_sample());
    if performed.len() > 0 {
        let tail = performed.drop_first();
        assert forall|i: int, j: int|
            0 <= i < tail.len() && 0 <= j < tail.len() && #[trigger] tail[i] == filling
                && #[trigger] tail[j] == filling implies i == j by {
            assert(performed[i + 1] == filling && performed[j + 1] == filling);
        }
        if tail.contains(filling) {
            let k = choose|k: int| 0 <= k < tail.len() && tail[k] == filling;
            assert(performed[k + 1] == filling);
        }
        if performed.contains(filling) && performed[0] != filling {
            let k = choose|k: int| 0 <= k < performed.len() && performed[k] == filling;
            assert(tail[k - 1] == filling);
        }
        lemma_rows_after(
            if performed[0] == filling {
                rows + sample_rows()
            } else {
                rows
            },
            tail,
        );
    }
}

/// A connect call that seeds the sample and succeeds leaves it with rows, where the rows are counted
/// as none exactly if there are none: the two of the sample then, and else those that it had.
pub proof fn a_seeded_sample_has_rows(
    engine: Seq<char>,
    request: JsonView,
    connection_id: Seq<char>,
    environment: Option<Seq<char>>,
    events: Seq<EventView>,
    rows: Seq<SampleRow>,
)
    requires
        ({
            let start = connect_spec(engine, request, connection_id, environment);
            &&& seeds_sample(request, connection_id)
            &&& is_success(run(start, events))
            &&& happens(Incident::SampleIsEmpty, start, events) <==> rows.len() == 0
        }),
    ensures
        rows_after(
            rows,
            actions(connect_spec(engine, request, connection_id, environment), events),
        ) == (if rows.len() == 0 {
            seq![(1int, "Kawase Foods"@), (2int, "Minato Labs"@)]
        } else {
            rows
        }),
{
    only_an_empty_sample_is_filled(engine, request, connection_id, environment, events);
    let performed = actions(
        connect_spec(engine, request, connection_id, environment),
        events,
    );
    lemma_rows_after(rows, performed);
    if rows.len() == 0 {
        assert(rows + sample_rows() =~= seq![(1int, "Kawase Foods"@), (2int, "Minato Labs"@)]);
    }
}

/// The batches that open a MotherDuck database are a fixed text and the value as a literal: SQL
/// reads the literal as the token, or as `md:` and the name of the database, and nothing follows.
pub proof fn opening_statements_are_fixed_but_for_their_values(
    token: Seq<char>,
    database: Seq<char>,
)
    ensures
        ({
            let applying = token_statement(token);
            let attaching = attach_statement(database);
            &&& applying.len() > 23
            &&& applying.take(23) == "set motherduck_token = "@
            &&& read_literal(applying.skip(23)) == Some((token, Seq::<char>::empty()))
            &&& attaching.len() > 7
            &&& attaching.take(7) == "attach "@
            &&& read_literal(attaching.skip(7)) == Some(
                (seq!['m', 'd', ':'] + database, Seq::<char>::empty()),
            )
        }),
{
    statements_carry_their_values(token, database);
    reveal_strlit("set motherduck_token = ");
    reveal_strlit("attach ");
    reveal_strlit("attach 'md:'");
    reveal_strlit("md:");
    assert("md:"@ =~= seq!['m', 'd', ':']);
    assert("set motherduck_token = "@.len() == 23);
    assert("attach "@.len() == 7);
    assert(token_statement(token).take(23) =~= "set motherduck_token = "@);
    assert(attach_statement(database).take(7) =~= "attach "@);
}

/// The actions that open a target.
pub open spec fn opening_actions(target: TargetView, token: Seq<char>) -> Seq<ActionView> {
    match target {
        TargetView::InMemory => seq![ActionView::OpenInMemory],
        TargetView::LocalFile(path) => seq![ActionView::OpenFile(path)],
        TargetView::MotherDuck(database) => seq![
            ActionView::OpenInMemory,
            ActionView::RunBatch("install motherduck; load motherduck;"@),
            ActionView::RunBatch(token_statement(token)),
            ActionView::RunBatch(attach_statement(database)),
        ],
    }
}

/// What a driver answers that does all it is asked for: to open, to tell its version, and to count
/// the sample.
pub open spec fn willing_events(
    target: TargetView,
    seeds: bool,
    version: Option<Seq<char>>,
    count: Option<i64>,
) -> Seq<EventView> {
    let opened = Seq::new(
        if target is MotherDuck {
            4
        } else {
            1
        },
        |i: int| EventView::Done,
    );
    let seeded = if !seeds {
        seq![]
    } else if count is None || count->0 == 0 {
        seq![EventView::Done, EventView::Count(count), EventView::Done]
    } else {
        seq![EventView::Done, EventView::Count(count)]
    };
    opened + seq![EventView::Text(version)] + seeded + seq![EventView::Done]
}

/// The actions after a target is opened: the version is read; the sample is created, counted, and
/// filled if it has no rows, where that is asked for; and the connection is stored.
pub open spec fn later_actions(
    seeds: bool,
    count: Option<i64>,
    connection_id: Seq<char>,
) -> Seq<ActionView> {
    let seeding = if !seeds {
        seq![]
    } else if count is None || count->0 == 0 {
        seq![
            ActionView::RunBatch(
                "create table if not exists customers (id integer, name varchar);"@,
            ),
            ActionView::ReadCount("select count(*) from customers"@),
            ActionView::RunBatch(
                "insert into customers values (1, 'Kawase Foods'), (2, 'Minato Labs');"@,
            ),
        ]
    } else {
        seq![
            ActionView::RunBatch(
                "create table if not exists customers (id integer, name varchar);"@,
            ),
            ActionView::ReadCount("select count(*) from customers"@),
        ]
    };
    seq![ActionView::ReadText("select version()"@)] + seeding + seq![
        ActionView::StoreConnection(connection_id),
    ]
}

/// One step of a call: its action and then those of the step after.
proof fn lemma_step(step: StepView, events: Seq<EventView>, after: StepView)
    requires
        step is Perform,
        events.len() > 0,
        next(step->Perform_1, events[0]) == Some(after),
    ensures
        actions(step, events) == seq![step->Perform_0] + actions(after, events.drop_first()),
        run(step, events) == run(after, events.drop_first()),
{
}

/// What follows when the connection is to be stored and is stored.
proof fn lemma_storing(plan: PlanView, version: Seq<char>, events: Seq<EventView>)
    requires
        events.len() > 0,
        events[0] == EventView::Done,
    ensures
        actions(stores(plan, version), events) == seq![
            ActionView::StoreConnection(plan.connection_id),
        ],
        run(stores(plan, version), events) == Some(StepView::Respond(connected(plan, version))),
{
    let done = StepView::Respond(connected(plan, version));
    lemma_step(stores(plan, version), events, done);
    assert(actions(done, events.drop_first()) =~= seq![]);
    assert(seq![ActionView::StoreConnection(plan.connection_id)] + Seq::<ActionView>::empty()
        =~= seq![ActionView::StoreConnection(plan.connection_id)]);
}

/// What a driver answers that does all it is asked for after a target is opened.
spec fn willing_later_events(
    seeds: bool,
    version: Option<Seq<char>>,
    count: Option<i64>,
) -> Seq<EventView> {
    if !seeds {
        seq![EventView::Text(version), EventView::Done]
    } else if count is None || count->0 == 0 {
        seq![
            EventView::Text(version),
            EventView::Done,
            EventView::Count(count),
            EventView::Done,
            EventView::Done,
        ]
    } else {
        seq![EventView::Text(version), EventView::Done, EventView::Count(count), EventView::Done]
    }
}

spec fn version_told(version: Option<Seq<char>>) -> Seq<char> {
    if version is Some {
        version->0
    } else {
        "unknown"@
    }
}

proof fn lemma_after_opening(plan: PlanView, version: Option<Seq<char>>, count: Option<i64>)
    ensures
        ({
            let events = willing_later_events(plan.seed, version, count);
            &&& actions(reads_version(plan), events) == later_actions(
                plan.seed,
                count,
                plan.connection_id,
            )
            &&& run(reads_version(plan), events) == Some(
                StepView::Respond(connected(plan, version_told(version))),
            )
        }),
{
    let told = version_told(version);
    let events = willing_later_events(plan.seed, version, count);
    let e1 = events.drop_first();
    let reading = reads_version(plan);
    let expected = later_actions(plan.seed, count, plan.connection_id);
    if !plan.seed {
        assert(e1[0] == EventView::Done);
        lemma_step(reading, events, stores(plan, told));
        lemma_storing(plan, told, e1);
        assert(actions(reading, events) =~= expected);
    } else {
        let e2 = e1.drop_first();
        let e3 = e2.drop_first();
        let creating = begins_seeding(plan, told);
        let counting = goes_on(
            ActionView::ReadCount(count_sample()),
            ConnectingView::CountingSample { plan, version: told },
        );
        assert(e1[0] == EventView::Done && e2[0] == EventView::Count(count) && e3[0]
            == EventView::Done);
        lemma_step(reading, events, creating);
        lemma_step(creating, e1, counting);
        if count is None || count->0 == 0 {
            let e4 = e3.drop_first();
            let filling = goes_on(
                ActionView::RunBatch(fill_sample()),
                ConnectingView::FillingSample { plan, version: told },
            );
            assert(e4[0] == EventView::Done);
            lemma_step(counting, e2, filling);
            lemma_step(filling, e3, stores(plan, told));
            lemma_storing(plan, told, e4);
            assert(actions(reading, events) =~= expected);
        } else {
            lemma_step(counting, e2, stores(plan, told));
            lemma_storing(plan, told, e3);
            assert(actions(reading, events) =~= expected);
        }
    }
}

proof fn lemma_opening_file(
    target: TargetView,
    token: Option<Seq<char>>,
    plan: PlanView,
    events: Seq<EventView>,
)
    requires
        !(target is MotherDuck),
        events.len() > 0,
        events[0] == EventView::Done,
    ensures
        ({
            let start = connect_to(target, token, plan);
            &&& actions(start, events) == opening_actions(target, token->0) + actions(
                reads_version(plan),
                events.drop_first(),
            )
            &&& run(start, events) == run(reads_version(plan), events.drop_first())
        }),
{
    lemma_step(connect_to(target, token, plan), events, reads_version(plan));
}

proof fn lemma_opening_motherduck(
    database: Seq<char>,
    token: Seq<char>,
    plan: PlanView,
    events: Seq<EventView>,
)
    requires
        events.len() > 3,
        forall|i: int| 0 <= i < 4 ==> #[trigger] events[i] == EventView::Done,
    ensures
        ({
            let target = TargetView::MotherDuck(database);
            let start = connect_to(target, Some(token), plan);
            &&& actions(start, events) == opening_actions(target, token) + actions(
                reads_version(plan),
                events.skip(4),
            )
            &&& run(start, events) == run(reads_version(plan), events.skip(4))
        }),
{
    let target = TargetView::MotherDuck(database);
    let start = connect_to(target, Some(token), plan);
    let e1 = events.drop_first();
    let e2 = e1.drop_first();
    let e3 = e2.drop_first();
    assert(e1[0] == events[1] && e2[0] == events[2] && e3[0] == events[3]);
    assert(e3.drop_first() =~= events.skip(4));
    let loading = goes_on(
        ActionView::RunBatch("install motherduck; load motherduck;"@),
        ConnectingView::LoadingExtension { plan, database, token },
    );
    let applying = goes_on(
        ActionView::RunBatch(token_statement(token)),
        ConnectingView::ApplyingToken { plan, database },
    );
    let attaching = goes_on(
        ActionView::RunBatch(attach_statement(database)),
        ConnectingView::Attaching { plan },
    );
    lemma_step(start, events, loading);
    lemma_step(loading, e1, applying);
    lemma_step(applying, e2, attaching);
    lemma_step(attaching, e3, reads_version(plan));
    assert(actions(start, events) =~= opening_actions(target, token) + actions(
        reads_version(plan),
        events.skip(4),
    ));
}

proof fn lemma_willing_connect(
    target: TargetView,
    token: Option<Seq<char>>,
    plan: PlanView,
    version: Option<Seq<char>>,
    count: Option<i64>,
)
    requires
        target is MotherDuck ==> token is Some,
    ensures
        ({
            let start = connect_to(target, token, plan);
            let events = willing_events(target, plan.seed, version, count);
            &&& actions(start, events) == opening_actions(target, token->0) + later_actions(
                plan.seed,
                count,
                plan.connection_id,
            )
            &&& run(start, events) == Some(
                StepView::Respond(connected(plan, version_told(version))),
            )
        }),
{
    let events = willing_events(target, plan.seed, version, count);
    let later = willing_later_events(plan.seed, version, count);
    lemma_after_opening(plan, version, count);
    if let TargetView::MotherDuck(database) = target {
        assert(events.skip(4) =~= later);
        lemma_opening_motherduck(database, token->0, plan, events);
    } else {
        assert(events.drop_first() =~= later);
        lemma_opening_file(target, token, plan, events);
    }
}

/// A connect call does what its request asks for, in order: it opens the target, reads the version,
/// seeds the sample where that is asked for, and stores the connection under the id of the call.
/// With a driver that does all of this it is answered with the engine, the id and the version, or
/// `unknown` where the driver tells none.
pub proof fn a_connect_call_does_what_is_asked(
    connector: ConnectorView,
    call: CallView,
    request: JsonView,
    version: Option<Seq<char>>,
    count: Option<i64>,
)
    requires
        call.method == "connect"@,
        call.request == Some(request),
        target_of(request) is MotherDuck ==> token_of(request, call.environment) is Some,
    ensures
        ({
            let start = call_spec(connector, call);
            let target = target_of(request);
            let seeds = seeds_sample(request, call.connection_id);
            let events = willing_events(target, seeds, version, count);
            &&& actions(start, events) == opening_actions(
                target,
                token_of(request, call.environment)->0,
            ) + later_actions(seeds, count, call.connection_id)
            &&& run(start, events) matches Some(StepView::Respond(ResponseView::Fields(fields)))
            &&& fields.len() == 4
            &&& member(fields, "engine"@) == Some(JsonView::Text(connector.engine))
            &&& member(fields, "connectionId"@) == Some(JsonView::Text(call.connection_id))
            &&& member(fields, "serverVersion"@) == Some(
                JsonView::Text(
                    if version is Some {
                        version->0
                    } else {
                        "unknown"@
                    },
                ),
            )
            &&& member(fields, "driverLinked"@) == Some(JsonView::Bool(true))
        }),
{
    lemma_method_names();
    lemma_keys();
    let start = call_spec(connector, call);
    let seeds = seeds_sample(request, call.connection_id);
    let plan = PlanView {
        engine: connector.engine,
        connection_id: call.connection_id,
        seed: seeds,
    };
    let events = willing_events(target_of(request), seeds, version, count);
    lemma_willing_connect(
        target_of(request),
        token_of(request, call.environment),
        plan,
        version,
        count,
    );
    let fields = run(start, events)->0->Respond_0->Fields_0;
    a_member_is_found_under_its_key(fields, 0);
    a_member_is_found_under_its_key(fields, 1);
    a_member_is_found_under_its_key(fields, 2);
    a_member_is_found_under_its_key(fields, 3);
}

/// A MotherDuck database is refused without a token before anything is opened, and the words say
/// where a token may be given.
pub proof fn motherduck_is_refused_without_a_token(
    connector: ConnectorView,
    call: CallView,
    request: JsonView,
)
    requires
        call.method == "connect"@,
        call.request == Some(request),
        target_of(request) is MotherDuck,
        token_of(request, call.environment) is None,
    ensures
        call_spec(connector, call) == StepView::Respond(
            ResponseView::Failure {
                code: "connector.invalidRequest"@,
                message: "MotherDuck needs a service token. Enter it in the MotherDuck token field, or set the motherduck_token environment variable."@,
            },
        ),
{
    lemma_method_names();
}

} // verus!
