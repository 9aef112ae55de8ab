//! The order of the setup: which step comes next, given how the last one
//! went. The caller performs each step and reports its outcome.

use vstd::prelude::*;

verus! {

/// A step of the setup, or one of its two ends.
#[derive(Clone, Copy, Debug, PartialEq, Eq, Structural)]
pub enum Step {
    /// Install the server's binaries and initialise its data directory.
    SetupServer,
    /// Start the server.
    StartServer,
    /// Ask whether the demonstration database exists.
    CheckDatabase,
    /// Create the demonstration database.
    CreateDatabase,
    /// Open the connection pool to the demonstration database.
    Connect,
    /// Ask whether the extension's library file is present.
    CheckInstalled,
    /// Download the extension and copy its files into place.
    Install,
    /// Issue the configuration statements on one connection.
    Configure,
    /// Stop the server, so that the configuration takes effect.
    StopServer,
    /// Start the server again.
    RestartServer,
    /// Close the pool, whose connections the restart broke, and open a new one.
    Reconnect,
    /// Activate the extension in the database.
    EnableExtension,
    /// Create the demonstration table.
    CreateTable,
    /// Insert the demonstration rows.
    InsertData,
    /// Run and print the distance queries.
    ShowDistances,
    /// Run and print the nearest-neighbour query.
    SearchNearest,
    /// Every step succeeded.
    Finished,
    /// A step failed; nothing more is done.
    Failed,
}

/// How a step went.
#[derive(Clone, Copy, Debug, PartialEq, Eq, Structural)]
pub enum Outcome {
    /// The step was carried out.
    Done,
    /// The question that the step asked was answered.
    Answer(bool),
    /// The step failed.
    Error,
}

/// Whether the setup is over.
pub open spec fn is_terminal(step: Step) -> bool {
    step is Finished || step is Failed
}

/// Whether the step asks a question rather than doing something.
pub open spec fn is_question(step: Step) -> bool {
    step is CheckDatabase || step is CheckInstalled
}

/// The step that follows `step` when it ended with `outcome`. Any error,
/// or an outcome of the wrong kind, ends the setup as failed.
pub open spec fn next_step(step: Step, outcome: Outcome) -> Step {
    if is_terminal(step) {
        step
    } else {
        match outcome {
            Outcome::Error => Step::Failed,
            Outcome::Answer(yes) => match step {
                Step::CheckDatabase => if yes { Step::Connect } else { Step::CreateDatabase },
                Step::CheckInstalled => if yes { Step::CreateTable } else { Step::Install },
                _ => Step::Failed,
            },
            Outcome::Done => match step {
                Step::SetupServer => Step::StartServer,
                Step::StartServer => Step::CheckDatabase,
                Step::CreateDatabase => Step::Connect,
                Step::Connect => Step::CheckInstalled,
                Step::Install => Step::Configure,
                Step::Configure => Step::StopServer,
                Step::StopServer => Step::RestartServer,
                Step::RestartServer => Step::Reconnect,
                Step::Reconnect => Step::EnableExtension,
                Step::EnableExtension => Step::CreateTable,
                Step::CreateTable => Step::InsertData,
                Step::InsertData => Step::ShowDistances,
                Step::ShowDistances => Step::SearchNearest,
                Step::SearchNearest => Step::Finished,
                _ => Step::Failed,
            },
        }
    }
}

/// The first step of a setup.
pub fn first_step() -> (r: Step)
    ensures
        r == Step::SetupServer,
{
    Step::SetupServer
}

/// Whether the setup is over.
pub fn is_over(step: Step) -> (r: bool)
    ensures
        r == is_terminal(step),
{
    matches!(step, Step::Finished | Step::Failed)
}

/// The step after `step`, which ended with `outcome`.
pub fn advance(step: Step, outcome: Outcome) -> (r: Step)
    ensures
        r == next_step(step, outcome),
{
    if is_over(step) {
        return step;
    }
    match outcome {
        Outcome::Error => Step::Failed,
        Outcome::Answer(yes) => match step {
            Step::CheckDatabase => if yes { Step::Connect } else { Step::CreateDatabase },
            Step::CheckInstalled => if yes { Step::CreateTable } else { Step::Install },
            _ => Step::Failed,
        },
        Outcome::Done => match step {
            Step::SetupServer => Step::StartServer,
            Step::StartServer => Step::CheckDatabase,
            Step::CreateDatabase => Step::Connect,
            Step::Connect => Step::CheckInstalled,
            Step::Install => Step::Configure,
            Step::Configure => Step::StopServer,
            Step::StopServer => Step::RestartServer,
            Step::RestartServer => Step::Reconnect,
            Step::Reconnect => Step::EnableExtension,
            Step::EnableExtension => Step::CreateTable,
            Step::CreateTable => Step::InsertData,
            Step::InsertData => Step::ShowDistances,
            Step::ShowDistances => Step::SearchNearest,
            Step::SearchNearest => Step::Finished,
            _ => Step::Failed,
        },
    }
}

/// The outcome of `step` on a run where nothing fails, the database exists
/// exactly when `db_exists`, and the extension's library file is present
/// exactly when `installed`.
pub open spec fn smooth_outcome(step: Step, db_exists: bool, installed: bool) -> Outcome {
    match step {
        Step::CheckDatabase => Outcome::Answer(db_exists),
        Step::CheckInstalled => Outcome::Answer(installed),
        _ => Outcome::Done,
    }
}

/// The steps visited from `step` on such a run, at most `fuel` of them
/// before the last.
pub open spec fn smooth_run(step: Step, db_exists: bool, installed: bool, fuel: nat) -> Seq<Step>
    decreases fuel,
{
    if fuel == 0 || is_terminal(step) {
        seq![step]
    } else {
        seq![step] + smooth_run(next_step(step, smooth_outcome(step, db_exists, installed)), db_exists, installed, (fuel - 1) as nat)
    }
}

/// The steps of a setup where nothing fails, in order.
pub open spec fn setup_plan(db_exists: bool, installed: bool) -> Seq<Step> {
    seq![Step::SetupServer, Step::StartServer, Step::CheckDatabase]
        + (if db_exists { seq![] } else { seq![Step::CreateDatabase] })
        + seq![Step::Connect, Step::CheckInstalled]
        + (if installed {
            seq![]
        } else {
            seq![
                Step::Install,
                Step::Configure,
                Step::StopServer,
                Step::RestartServer,
                Step::Reconnect,
                Step::EnableExtension,
            ]
        })
        + seq![Step::CreateTable, Step::InsertData, Step::ShowDistances, Step::SearchNearest]
}

/// The demonstration, from its first step on, where nothing fails.
proof fn lemma_smooth_demo(db_exists: bool, installed: bool, fuel: nat)
    requires
        fuel >= 4,
    ensures
        smooth_run(Step::CreateTable, db_exists, installed, fuel)
            == seq![Step::CreateTable, Step::InsertData, Step::ShowDistances, Step::SearchNearest, Step::Finished],
{
    let f = fuel;
    assert(smooth_run(Step::Finished, db_exists, installed, (f - 4) as nat) == seq![Step::Finished]);
    assert(smooth_run(Step::SearchNearest, db_exists, installed, (f - 3) as nat) =~= seq![Step::SearchNearest, Step::Finished]);
    assert(smooth_run(Step::ShowDistances, db_exists, installed, (f - 2) as nat)
        =~= seq![Step::ShowDistances, Step::SearchNearest, Step::Finished]);
    assert(smooth_run(Step::InsertData, db_exists, installed, (f - 1) as nat)
        =~= seq![Step::InsertData, Step::ShowDistances, Step::SearchNearest, Step::Finished]);
    assert(smooth_run(Step::CreateTable, db_exists, installed, f)
        =~= seq![Step::CreateTable, Step::InsertData, Step::ShowDistances, Step::SearchNearest, Step::Finished]);
}

/// The installation and activation of the extension, where nothing fails.
proof fn lemma_smooth_install(db_exists: bool, installed: bool, fuel: nat)
    requires
        fuel >= 10,
    ensures
        smooth_run(Step::Install, db_exists, installed, fuel) == seq![
            Step::Install,
            Step::Configure,
            Step::StopServer,
            Step::RestartServer,
            Step::Reconnect,
            Step::EnableExtension,
        ] + smooth_run(Step::CreateTable, db_exists, installed, (fuel - 6) as nat),
{
    let f = fuel;
    let rest = smooth_run(Step::CreateTable, db_exists, installed, (f - 6) as nat);
    assert(smooth_run(Step::EnableExtension, db_exists, installed, (f - 5) as nat) =~= seq![Step::EnableExtension] + rest);
    assert(smooth_run(Step::Reconnect, db_exists, installed, (f - 4) as nat) =~= seq![Step::Reconnect, Step::EnableExtension] + rest);
    assert(smooth_run(Step::RestartServer, db_exists, installed, (f - 3) as nat)
        =~= seq![Step::RestartServer, Step::Reconnect, Step::EnableExtension] + rest);
    assert(smooth_run(Step::StopServer, db_exists, installed, (f - 2) as nat)
        =~= seq![Step::StopServer, Step::RestartServer, Step::Reconnect, Step::EnableExtension] + rest);
    assert(smooth_run(Step::Configure, db_exists, installed, (f - 1) as nat)
        =~= seq![Step::Configure, Step::StopServer, Step::RestartServer, Step::Reconnect, Step::EnableExtension] + rest);
    assert(smooth_run(Step::Install, db_exists, installed, f) =~= seq![
        Step::Install,
        Step::Configure,
        Step::StopServer,
        Step::RestartServer,
        Step::Reconnect,
        Step::EnableExtension,
    ] + rest);
}

/// From the opening of the pool on, where nothing fails.
proof fn lemma_smooth_from_connect(db_exists: bool, installed: bool, fuel: nat)
    requires
        fuel >= 12,
    ensures
        smooth_run(Step::Connect, db_exists, installed, fuel) == seq![Step::Connect, Step::CheckInstalled]
            + (if installed {
            seq![]
        } else {
            seq![
                Step::Install,
                Step::Configure,
                Step::StopServer,
                Step::RestartServer,
                Step::Reconnect,
                Step::EnableExtension,
            ]
        }) + seq![Step::CreateTable, Step::InsertData, Step::ShowDistances, Step::SearchNearest, Step::Finished],
{
    let f = fuel;
    let demo = seq![Step::CreateTable, Step::InsertData, Step::ShowDistances, Step::SearchNearest, Step::Finished];
    if installed {
        lemma_smooth_demo(db_exists, installed, (f - 2) as nat);
        assert(smooth_run(Step::CheckInstalled, db_exists, installed, (f - 1) as nat) =~= seq![Step::CheckInstalled] + demo);
    } else {
        lemma_smooth_install(db_exists, installed, (f - 2) as nat);
        lemma_smooth_demo(db_exists, installed, (f - 8) as nat);
        assert(smooth_run(Step::CheckInstalled, db_exists, installed, (f - 1) as nat) =~= seq![Step::CheckInstalled] + seq![
            Step::Install,
            Step::Configure,
            Step::StopServer,
            Step::RestartServer,
            Step::Reconnect,
            Step::EnableExtension,
        ] + demo);
    }
    assert(smooth_run(Step::Connect, db_exists, installed, f) =~= seq![Step::Connect] + smooth_run(
        Step::CheckInstalled,
        db_exists,
        installed,
        (f - 1) as nat,
    ));
}

/// Where nothing fails, the setup runs in one straight line and finishes:
/// the database is created only when it is missing; the extension is
/// installed, configured, the server restarted, the pool rebuilt and the
/// extension activated only when its library file is missing, and in that
/// order; the demonstration follows either way.
pub proof fn lemma_smooth_setup_follows_plan(db_exists: bool, installed: bool)
    ensures
        smooth_run(Step::SetupServer, db_exists, installed, 20) == setup_plan(db_exists, installed).push(Step::Finished),
{
    let tail = smooth_run(Step::Connect, db_exists, installed, 16);
    lemma_smooth_from_connect(db_exists, installed, 16);
    lemma_smooth_from_connect(db_exists, installed, 17);
    if !db_exists {
        assert(smooth_run(Step::CreateDatabase, db_exists, installed, 17) =~= seq![Step::CreateDatabase] + tail);
    }
    let after_check = if db_exists { tail } else { seq![Step::CreateDatabase] + tail };
    assert(smooth_run(Step::CheckDatabase, db_exists, installed, 18) =~= seq![Step::CheckDatabase] + after_check);
    assert(smooth_run(Step::StartServer, db_exists, installed, 19) =~= seq![Step::StartServer, Step::CheckDatabase] + after_check);
    assert(smooth_run(Step::SetupServer, db_exists, installed, 20) =~= seq![Step::SetupServer, Step::StartServer, Step::CheckDatabase] + after_check);
    assert(smooth_run(Step::SetupServer, db_exists, installed, 20) =~= setup_plan(db_exists, installed).push(Step::Finished));
}

/// A failure of any step ends the setup, and an ended setup stays as it is.
pub proof fn lemma_error_ends_setup(step: Step, outcome: Outcome)
    ensures
        !is_terminal(step) ==> next_step(step, Outcome::Error) == Step::Failed,
        is_terminal(step) ==> next_step(step, outcome) == step,
{
}

} // verus!
