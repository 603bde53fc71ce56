//! Connecting: the target is opened, a MotherDuck database is attached, the version is read, the
//! sample is seeded where it is asked for, and the connection is stored.

use vstd::prelude::*;
use vstd::string::*;
use vstd::pervasive::unreached;

use crate::json::{members_view, named, Json, JsonView};
use crate::protocol::{
    fail, fail_poisoned, fails, is_poisoned, Action, ActionView, Event, EventView, Pending,
    PendingView, Response, ResponseView, Step, StepView,
};
use crate::quoting::{sql_literal, sql_string};
use crate::target::{
    motherduck_token, seeds_sample, should_seed_sample, str_view, target_of, token_of, Target,
    TargetView,
};
use crate::text::joined;

verus! {

/// What stays the same while a connection is made.
#[derive(Debug, PartialEq, Eq)]
pub struct Plan {
    /// The name of the engine, for the response.
    pub engine: String,
    /// The id under which the connection will be kept.
    pub connection_id: String,
    /// Whether the sample is to be seeded.
    pub seed: bool,
}

/// The content of a [`Plan`].
pub ghost struct PlanView {
    pub engine: Seq<char>,
    pub connection_id: Seq<char>,
    pub seed: bool,
}

impl View for Plan {
    type V = PlanView;

    open spec fn view(&self) -> PlanView {
        PlanView {
            engine: self.engine@,
            connection_id: self.connection_id@,
            seed: self.seed,
        }
    }
}

/// How far a connection has got.
#[derive(Debug, PartialEq, Eq)]
pub enum Connecting {
    /// A database in memory or in a file is being opened.
    Opening { plan: Plan },
    /// A connection for a MotherDuck database is being opened.
    OpeningMotherDuck { plan: Plan, database: String, token: String },
    /// The MotherDuck extension is being loaded.
    LoadingExtension { plan: Plan, database: String, token: String },
    /// The token is being applied.
    ApplyingToken { plan: Plan, database: String },
    /// The MotherDuck database is being attached.
    Attaching { plan: Plan },
    /// The version is being read.
    ReadingVersion { plan: Plan },
    /// The table of the sample is being created.
    CreatingSample { plan: Plan, version: String },
    /// The rows of the sample are being counted.
    CountingSample { plan: Plan, version: String },
    /// The rows of the sample are being inserted.
    FillingSample { plan: Plan, version: String },
    /// The connection is being stored.
    Storing { plan: Plan, version: String },
}

/// The content of a [`Connecting`] state.
pub ghost enum ConnectingView {
    Opening { plan: PlanView },
    OpeningMotherDuck { plan: PlanView, database: Seq<char>, token: Seq<char> },
    LoadingExtension { plan: PlanView, database: Seq<char>, token: Seq<char> },
    ApplyingToken { plan: PlanView, database: Seq<char> },
    Attaching { plan: PlanView },
    ReadingVersion { plan: PlanView },
    CreatingSample { plan: PlanView, version: Seq<char> },
    CountingSample { plan: PlanView, version: Seq<char> },
    FillingSample { plan: PlanView, version: Seq<char> },
    Storing { plan: PlanView, version: Seq<char> },
}

impl View for Connecting {
    type V = ConnectingView;

    open spec fn view(&self) -> ConnectingView {
        match self {
            Connecting::Opening { plan } => ConnectingView::Opening { plan: plan@ },
            Connecting::OpeningMotherDuck { plan, database, token } =>
                ConnectingView::OpeningMotherDuck {
                plan: plan@,
                database: database@,
                token: token@,
            },
            Connecting::LoadingExtension { plan, database, token } =>
                ConnectingView::LoadingExtension {
                plan: plan@,
                database: database@,
                token: token@,
            },
            Connecting::ApplyingToken { plan, database } => ConnectingView::ApplyingToken {
                plan: plan@,
                database: database@,
            },
            Connecting::Attaching { plan } => ConnectingView::Attaching { plan: plan@ },
            Connecting::ReadingVersion { plan } => ConnectingView::ReadingVersion { plan: plan@ },
            Connecting::CreatingSample { plan, version } => ConnectingView::CreatingSample {
                plan: plan@,
                version: version@,
            },
            Connecting::CountingSample { plan, version } => ConnectingView::CountingSample {
                plan: plan@,
                version: version@,
            },
            Connecting::FillingSample { plan, version } => ConnectingView::FillingSample {
                plan: plan@,
                version: version@,
            },
            Connecting::Storing { plan, version } => ConnectingView::Storing {
                plan: plan@,
                version: version@,
            },
        }
    }
}

impl ConnectingView {
    /// The plan that the call follows.
    pub open spec fn plan(self) -> PlanView {
        match self {
            ConnectingView::Opening { plan } => plan,
            ConnectingView::OpeningMotherDuck { plan, .. } => plan,
            ConnectingView::LoadingExtension { plan, .. } => plan,
            ConnectingView::ApplyingToken { plan, .. } => plan,
            ConnectingView::Attaching { plan } => plan,
            ConnectingView::ReadingVersion { plan } => plan,
            ConnectingView::CreatingSample { plan, .. } => plan,
            ConnectingView::CountingSample { plan, .. } => plan,
            ConnectingView::FillingSample { plan, .. } => plan,
            ConnectingView::Storing { plan, .. } => plan,
        }
    }
}

/// An action on the way to a connection.
pub open spec fn goes_on(action: ActionView, state: ConnectingView) -> StepView {
    StepView::Perform(action, PendingView::Connect(state))
}

/// The statement that applies a token.
pub open spec fn token_statement(token: Seq<char>) -> Seq<char> {
    "set motherduck_token = "@ + sql_literal(token)
}

/// The statement that attaches a MotherDuck database; no name means the default one.
pub open spec fn attach_statement(database: Seq<char>) -> Seq<char> {
    if database.len() == 0 {
        "attach 'md:'"@
    } else {
        "attach "@ + sql_literal("md:"@ + database)
    }
}

/// The statement that creates the table of the sample, where there is none.
pub open spec fn create_sample() -> Seq<char> {
    "create table if not exists customers (id integer, name varchar);"@
}

/// The statement that counts the rows of the sample.
pub open spec fn count_sample() -> Seq<char> {
    "select count(*) from customers"@
}

/// The statement that fills the sample.
pub open spec fn fill_sample() -> Seq<char> {
    "insert into customers values (1, 'Kawase Foods'), (2, 'Minato Labs');"@
}

/// The failure to open or to attach what was asked for.
pub open spec fn connect_fails(message: Seq<char>) -> StepView {
    fails("connector.connectFailed"@, message)
}

/// The first step towards a target.
pub open spec fn connect_to(
    target: TargetView,
    token: Option<Seq<char>>,
    plan: PlanView,
) -> StepView {
    match target {
        TargetView::InMemory => goes_on(
            ActionView::OpenInMemory,
            ConnectingView::Opening { plan },
        ),
        TargetView::LocalFile(path) => goes_on(
            ActionView::OpenFile(path),
            ConnectingView::Opening { plan },
        ),
        TargetView::MotherDuck(database) => match token {
            Some(token) => goes_on(
                ActionView::OpenInMemory,
                ConnectingView::OpeningMotherDuck { plan, database, token },
            ),
            None => fails(
                "connector.invalidRequest"@,
                "MotherDuck needs a service token. Enter it in the MotherDuck token field, or set the motherduck_token environment variable."@,
            ),
        },
    }
}

/// The first step of a connect call.
pub open spec fn connect_spec(
    engine: Seq<char>,
    request: JsonView,
    connection_id: Seq<char>,
    environment: Option<Seq<char>>,
) -> StepView {
    connect_to(
        target_of(request),
        token_of(request, environment),
        PlanView { engine, connection_id, seed: seeds_sample(request, connection_id) },
    )
}

/// The version is read next.
pub open spec fn reads_version(plan: PlanView) -> StepView {
    goes_on(ActionView::ReadText("select version()"@), ConnectingView::ReadingVersion { plan })
}

/// The connection is stored next.
pub open spec fn stores(plan: PlanView, version: Seq<char>) -> StepView {
    goes_on(
        ActionView::StoreConnection(plan.connection_id),
        ConnectingView::Storing { plan, version },
    )
}

/// The response to a connect call that succeeded.
pub open spec fn connected(plan: PlanView, version: Seq<char>) -> ResponseView {
    ResponseView::Fields(
        seq![
            ("engine"@, JsonView::Text(plan.engine)),
            ("connectionId"@, JsonView::Text(plan.connection_id)),
            ("serverVersion"@, JsonView::Text(version)),
            ("driverLinked"@, JsonView::Bool(true)),
        ],
    )
}

/// The next step of a connect call; nothing where the event does not answer the action.
pub open spec fn connect_next(state: ConnectingView, event: EventView) -> Option<StepView> {
    match state {
        ConnectingView::Opening { plan } => match event {
            EventView::Done => Some(reads_version(plan)),
            EventView::Failed(e) => Some(connect_fails("connect failed: "@ + e)),
            _ => None,
        },
        ConnectingView::OpeningMotherDuck { plan, database, token } => match event {
            EventView::Done => Some(
                goes_on(
                    ActionView::RunBatch("install motherduck; load motherduck;"@),
                    ConnectingView::LoadingExtension { plan, database, token },
                ),
            ),
            EventView::Failed(e) => Some(connect_fails("MotherDuck connect failed: "@ + e)),
            _ => None,
        },
        ConnectingView::LoadingExtension { plan, database, token } => match event {
            EventView::Done => Some(
                goes_on(
                    ActionView::RunBatch(token_statement(token)),
                    ConnectingView::ApplyingToken { plan, database },
                ),
            ),
            EventView::Failed(e) => Some(
                connect_fails("loading the MotherDuck extension failed: "@ + e),
            ),
            _ => None,
        },
        ConnectingView::ApplyingToken { plan, database } => match event {
            EventView::Done => Some(
                goes_on(
                    ActionView::RunBatch(attach_statement(database)),
                    ConnectingView::Attaching { plan },
                ),
            ),
            EventView::Failed(_) => Some(
                connect_fails("applying the MotherDuck token failed."@),
            ),
            _ => None,
        },
        ConnectingView::Attaching { plan } => match event {
            EventView::Done => Some(reads_version(plan)),
            EventView::Failed(e) => Some(
                connect_fails("attaching the MotherDuck database failed: "@ + e),
            ),
            _ => None,
        },
        ConnectingView::ReadingVersion { plan } => match event {
            EventView::Text(text) => {
                let version = match text {
                    Some(t) => t,
                    None => "unknown"@,
                };
                Some(
                    if plan.seed {
                        goes_on(
                            ActionView::RunBatch(create_sample()),
                            ConnectingView::CreatingSample { plan, version },
                        )
                    } else {
                        stores(plan, version)
                    },
                )
            },
            _ => None,
        },
        ConnectingView::CreatingSample { plan, version } => match event {
            EventView::Done => Some(
                goes_on(
                    ActionView::ReadCount(count_sample()),
                    ConnectingView::CountingSample { plan, version },
                ),
            ),
            EventView::Failed(e) => Some(
                fails("connector.seedFailed"@, "duckdb sample schema failed: "@ + e),
            ),
            _ => None,
        },
        ConnectingView::CountingSample { plan, version } => match event {
            EventView::Count(count) => Some(
                if count is None || count == Some(0i64) {
                    goes_on(
                        ActionView::RunBatch(fill_sample()),
                        ConnectingView::FillingSample { plan, version },
                    )
                } else {
                    stores(plan, version)
                },
            ),
            _ => None,
        },
        ConnectingView::FillingSample { plan, version } => match event {
            EventView::Done => Some(stores(plan, version)),
            EventView::Failed(e) => Some(
                fails("connector.seedFailed"@, "duckdb sample data failed: "@ + e),
            ),
            _ => None,
        },
        ConnectingView::Storing { plan, version } => match event {
            EventView::Done => Some(StepView::Respond(connected(plan, version))),
            EventView::Poisoned => Some(is_poisoned()),
            _ => None,
        },
    }
}

fn go_on(action: Action, state: Connecting) -> (r: Step)
    ensures
        r@ == goes_on(action@, state@),
{
    Step::Perform(action, Pending::Connect(state))
}

/// Fails with what came before the driver's message, and the message.
fn fail_connect(before: &str, message: &str) -> (r: Step)
    ensures
        r@ == connect_fails(before@ + message@),
{
    fail("connector.connectFailed", joined(before, message))
}

/// The first step of a connect call. `environment` is the value of the environment variable
/// `motherduck_token`.
pub fn connect(
    engine: &str,
    request: &Json,
    connection_id: String,
    environment: Option<&str>,
) -> (r: Step)
    ensures
        r@ == connect_spec(engine@, request@, connection_id@, str_view(environment)),
{
    let seed = should_seed_sample(request, &connection_id);
    let plan = Plan { engine: engine.to_owned(), connection_id, seed };
    match Target::from_request(request) {
        Target::InMemory => go_on(Action::OpenInMemory, Connecting::Opening { plan }),
        Target::LocalFile(path) => go_on(Action::OpenFile(path), Connecting::Opening { plan }),
        Target::MotherDuck(database) => match motherduck_token(request, environment) {
            Some(token) => go_on(
                Action::OpenInMemory,
                Connecting::OpeningMotherDuck { plan, database, token },
            ),
            None => fail(
                "connector.invalidRequest",
                "MotherDuck needs a service token. Enter it in the MotherDuck token field, or set the motherduck_token environment variable.".to_owned(),
            ),
        },
    }
}

/// The statement that applies a token.
fn apply_token(token: &str) -> (r: String)
    ensures
        r@ == token_statement(token@),
{
    joined("set motherduck_token = ", &sql_string(token))
}

/// The statement that attaches a MotherDuck database.
fn attach(database: &str) -> (r: String)
    ensures
        r@ == attach_statement(database@),
{
    if database.is_empty() {
        "attach 'md:'".to_owned()
    } else {
        joined("attach ", &sql_string(&joined("md:", database)))
    }
}

fn read_version(plan: Plan) -> (r: Step)
    ensures
        r@ == reads_version(plan@),
{
    go_on(Action::ReadText("select version()".to_owned()), Connecting::ReadingVersion { plan })
}

fn store(plan: Plan, version: String) -> (r: Step)
    ensures
        r@ == stores(plan@, version@),
{
    let id = plan.connection_id.clone();
    go_on(Action::StoreConnection(id), Connecting::Storing { plan, version })
}

fn respond_connected(plan: Plan, version: String) -> (r: Step)
    ensures
        r@ == StepView::Respond(connected(plan@, version@)),
{
    let fields = vec![
        named("engine", Json::Text(plan.engine)),
        named("connectionId", Json::Text(plan.connection_id)),
        named("serverVersion", Json::Text(version)),
        named("driverLinked", Json::Bool(true)),
    ];
    assert(members_view(fields@) =~= connected(plan@, version@)->Fields_0);
    Step::Respond(Response::Fields(fields))
}

/// Whether the event answers the action of the state.
pub fn connect_expects(state: &Connecting, event: &Event) -> (r: bool)
    ensures
        r == connect_next(state@, event@) is Some,
{
    match state {
        Connecting::ReadingVersion { .. } => matches!(event, Event::Text(_)),
        Connecting::CountingSample { .. } => matches!(event, Event::Count(_)),
        Connecting::Storing { .. } => matches!(event, Event::Done | Event::Poisoned),
        _ => matches!(event, Event::Done | Event::Failed(_)),
    }
}

/// Opens a MotherDuck database: loads the extension, applies the token, then attaches. The token
/// is set through a statement of its own rather than embedded in the target, so that it never
/// appears in a message that quotes the target.
fn open_motherduck(state: Connecting, event: Event) -> (r: Step)
    requires
        state is OpeningMotherDuck || state is LoadingExtension || state is ApplyingToken
            || state is Attaching,
        connect_next(state@, event@) is Some,
    ensures
        connect_next(state@, event@) == Some(r@),
{
    match (state, event) {
        (Connecting::OpeningMotherDuck { plan, database, token }, Event::Done) => go_on(
            Action::RunBatch("install motherduck; load motherduck;".to_owned()),
            Connecting::LoadingExtension { plan, database, token },
        ),
        (Connecting::OpeningMotherDuck { .. }, Event::Failed(e)) => fail_connect(
            "MotherDuck connect failed: ",
            &e,
        ),
        (Connecting::LoadingExtension { plan, database, token }, Event::Done) => go_on(
            Action::RunBatch(apply_token(&token)),
            Connecting::ApplyingToken { plan, database },
        ),
        (Connecting::LoadingExtension { .. }, Event::Failed(e)) => fail_connect(
            "loading the MotherDuck extension failed: ",
            &e,
        ),
        (Connecting::ApplyingToken { plan, database }, Event::Done) => go_on(
            Action::RunBatch(attach(&database)),
            Connecting::Attaching { plan },
        ),
        (Connecting::ApplyingToken { .. }, Event::Failed(_)) => fail(
            "connector.connectFailed",
            "applying the MotherDuck token failed.".to_owned(),
        ),
        (Connecting::Attaching { plan }, Event::Done) => read_version(plan),
        (Connecting::Attaching { .. }, Event::Failed(e)) => fail_connect(
            "attaching the MotherDuck database failed: ",
            &e,
        ),
        _ => unreached(),
    }
}

/// Seeds the sample: creates its table, and fills it if it has no rows.
fn seed_sample(state: Connecting, event: Event) -> (r: Step)
    requires
        state is CreatingSample || state is CountingSample || state is FillingSample,
        connect_next(state@, event@) is Some,
    ensures
        connect_next(state@, event@) == Some(r@),
{
    match (state, event) {
        (Connecting::CreatingSample { plan, version }, Event::Done) => go_on(
            Action::ReadCount("select count(*) from customers".to_owned()),
            Connecting::CountingSample { plan, version },
        ),
        (Connecting::CreatingSample { .. }, Event::Failed(e)) => fail(
            "connector.seedFailed",
            joined("duckdb sample schema failed: ", &e),
        ),
        (Connecting::CountingSample { plan, version }, Event::Count(count)) => {
            let existing: i64 = match count {
                Some(n) => n,
                None => 0,
            };
            if existing == 0 {
                go_on(
                    Action::RunBatch(
                        "insert into customers values (1, 'Kawase Foods'), (2, 'Minato Labs');".to_owned(),
                    ),
                    Connecting::FillingSample { plan, version },
                )
            } else {
                store(plan, version)
            }
        },
        (Connecting::FillingSample { plan, version }, Event::Done) => store(plan, version),
        (Connecting::FillingSample { .. }, Event::Failed(e)) => fail(
            "connector.seedFailed",
            joined("duckdb sample data failed: ", &e),
        ),
        _ => unreached(),
    }
}

/// The next step of a connect call.
pub fn resume_connect(state: Connecting, event: Event) -> (r: Step)
    requires
        connect_next(state@, event@) is Some,
    ensures
        connect_next(state@, event@) == Some(r@),
{
    match (state, event) {
        (Connecting::Opening { plan }, Event::Done) => read_version(plan),
        (Connecting::Opening { .. }, Event::Failed(e)) => fail_connect("connect failed: ", &e),
        (Connecting::ReadingVersion { plan }, Event::Text(text)) => {
            let version = match text {
                Some(t) => t,
                None => "unknown".to_owned(),
            };
            if plan.seed {
                go_on(
                    Action::RunBatch(
                        "create table if not exists customers (id integer, name varchar);".to_owned(),
                    ),
                    Connecting::CreatingSample { plan, version },
                )
            } else {
                store(plan, version)
            }
        },
        (Connecting::Storing { plan, version }, Event::Done) => respond_connected(plan, version),
        (Connecting::Storing { .. }, Event::Poisoned) => fail_poisoned(),
        (state, event) => match state {
            Connecting::CreatingSample { .. } => seed_sample(state, event),
            Connecting::CountingSample { .. } => seed_sample(state, event),
            Connecting::FillingSample { .. } => seed_sample(state, event),
            _ => open_motherduck(state, event),
        },
    }
}

} // verus!
