//! How a session comes about: the steps of each route, in their order, and what
//! a step that fails comes to.
use crate::json::{json_error, json_line, json_problem, json_text, parse_json, render_json, Json};
use crate::lineage::CacheTtl;
use vstd::prelude::*;
use vstd::string::*;

verus! {

/// The routes to a session.
#[derive(Debug, Clone, Copy, PartialEq, Eq, Structural)]
pub enum Route {
    /// `hotl -p`: one prompt, no human.
    Headless,
    /// `hotl -p --json-schema`: one answer that fits a schema.
    Structured,
    /// `hotl serve`: a session that clients attach to.
    Serve,
    /// What a connection's sessions are opened from, built at startup and again
    /// on a reload.
    Build,
    /// One session of a connection.
    Open,
}

impl Route {
    /// How long the prompt cache of a session on this route is kept: an hour
    /// where a human may pause, five minutes where none is there.
    pub fn cache_ttl(self) -> (r: CacheTtl)
        ensures
            r == (match self {
                Route::Headless | Route::Structured => CacheTtl::FiveMinutes,
                Route::Serve | Route::Build | Route::Open => CacheTtl::OneHour,
            }),
    {
        match self {
            Route::Headless | Route::Structured => CacheTtl::FiveMinutes,
            Route::Serve | Route::Build | Route::Open => CacheTtl::OneHour,
        }
    }
}

/// One step on a route.
#[derive(Debug, Clone, Copy, PartialEq, Eq, Structural)]
pub enum Step {
    /// Read the schema file.
    ReadSchema,
    /// Find the parent session and replay it.
    ResolveParent,
    /// Say that the parent's prompt cache has expired, where it has.
    WarnCold,
    /// Select the provider.
    Select,
    /// Warm the provider's connection.
    Arm,
    /// Obtain the key, and load rules, sandbox and tools.
    Scaffold,
    /// Print the collected warnings.
    Announce,
    /// Create the session's log.
    CreateLog,
    /// Log the length of the inherited history.
    RecordFork,
    /// Log the name, the mode and the plan overlay.
    RecordOpening,
    /// Start the secret audit and the retention run.
    Upkeep,
    /// Log the items that a fresh session starts with.
    RecordSeed,
    /// Start the session.
    Spawn,
    /// Hand over the prompt and work until it is answered.
    Run,
    /// Let the hooks that are still running come to an end.
    Finish,
}

/// A session that is to come about.
#[derive(Debug, Clone, Copy, PartialEq, Eq, Structural)]
pub struct Job {
    pub route: Route,
    /// Whether it carries on an earlier session.
    pub resumes: bool,
    /// Whether it does so under a history of its own.
    pub forks: bool,
}

/// The step that a route starts with.
pub open spec fn opening(job: Job) -> Step {
    match job.route {
        Route::Headless => if job.resumes {
            Step::ResolveParent
        } else {
            Step::Select
        },
        Route::Structured => Step::ReadSchema,
        Route::Serve => Step::Select,
        Route::Build => Step::Select,
        Route::Open => Step::Arm,
    }
}

/// The step before a session starts: a fresh one logs its seed first.
pub open spec fn seeding(job: Job) -> Step {
    if job.resumes {
        Step::Spawn
    } else {
        Step::RecordSeed
    }
}

/// The step that follows `step`, where one does.
pub open spec fn following(job: Job, step: Step) -> Option<Step> {
    match step {
        Step::ReadSchema => Some(Step::Select),
        Step::ResolveParent => if job.route == Route::Open {
            Some(Step::CreateLog)
        } else {
            Some(Step::WarnCold)
        },
        Step::WarnCold => Some(Step::Select),
        Step::Select => if job.route == Route::Headless {
            Some(Step::Arm)
        } else {
            Some(Step::Scaffold)
        },
        Step::Arm => if job.route != Route::Open {
            Some(Step::Scaffold)
        } else if job.resumes {
            Some(Step::ResolveParent)
        } else {
            Some(Step::CreateLog)
        },
        Step::Scaffold => if job.route == Route::Build {
            None
        } else {
            Some(Step::Announce)
        },
        Step::Announce => Some(Step::CreateLog),
        Step::CreateLog => if job.forks {
            Some(Step::RecordFork)
        } else {
            Some(Step::RecordOpening)
        },
        Step::RecordFork => Some(Step::RecordOpening),
        Step::RecordOpening => if job.route == Route::Headless {
            Some(Step::Upkeep)
        } else {
            Some(seeding(job))
        },
        Step::Upkeep => Some(seeding(job)),
        Step::RecordSeed => Some(Step::Spawn),
        Step::Spawn => if job.route == Route::Open {
            None
        } else {
            Some(Step::Run)
        },
        Step::Run => if job.route == Route::Serve {
            None
        } else {
            Some(Step::Finish)
        },
        Step::Finish => None,
    }
}

/// The step that a route starts with.
pub fn first(job: Job) -> (r: Step)
    ensures
        r == opening(job),
{
    match job.route {
        Route::Headless => {
            if job.resumes {
                Step::ResolveParent
            } else {
                Step::Select
            }
        },
        Route::Structured => Step::ReadSchema,
        Route::Serve => Step::Select,
        Route::Build => Step::Select,
        Route::Open => Step::Arm,
    }
}

/// The step that follows one that succeeded, where one does.
pub fn next(job: Job, step: Step) -> (r: Option<Step>)
    ensures
        r == following(job, step),
{
    let seed = if job.resumes {
        Step::Spawn
    } else {
        Step::RecordSeed
    };
    match step {
        Step::ReadSchema => Some(Step::Select),
        Step::ResolveParent => {
            if job.route == Route::Open {
                Some(Step::CreateLog)
            } else {
                Some(Step::WarnCold)
            }
        },
        Step::WarnCold => Some(Step::Select),
        Step::Select => {
            if job.route == Route::Headless {
                Some(Step::Arm)
            } else {
                Some(Step::Scaffold)
            }
        },
        Step::Arm => {
            if job.route != Route::Open {
                Some(Step::Scaffold)
            } else if job.resumes {
                Some(Step::ResolveParent)
            } else {
                Some(Step::CreateLog)
            }
        },
        Step::Scaffold => {
            if job.route == Route::Build {
                None
            } else {
                Some(Step::Announce)
            }
        },
        Step::Announce => Some(Step::CreateLog),
        Step::CreateLog => {
            if job.forks {
                Some(Step::RecordFork)
            } else {
                Some(Step::RecordOpening)
            }
        },
        Step::RecordFork => Some(Step::RecordOpening),
        Step::RecordOpening => {
            if job.route == Route::Headless {
                Some(Step::Upkeep)
            } else {
                Some(seed)
            }
        },
        Step::Upkeep => Some(seed),
        Step::RecordSeed => Some(Step::Spawn),
        Step::Spawn => {
            if job.route == Route::Open {
                None
            } else {
                Some(Step::Run)
            }
        },
        Step::Run => {
            if job.route == Route::Serve {
                None
            } else {
                Some(Step::Finish)
            }
        },
        Step::Finish => None,
    }
}

/// What a failed step is told as. `subject` is the path of the schema.
pub open spec fn complaint(step: Step, subject: Seq<char>, error: Seq<char>) -> Seq<char> {
    match step {
        Step::ReadSchema => "could not read --json-schema `"@ + subject + "`: "@ + error,
        Step::CreateLog => "could not create session log: "@ + error,
        Step::RecordFork => "could not record the fork point: "@ + error,
        _ => error,
    }
}

/// Who speaks when a step fails. A connection hands the text on to its client.
pub open spec fn speaker(route: Route, step: Step) -> Seq<char> {
    if route == Route::Build || route == Route::Open {
        ""@
    } else if route == Route::Serve && step != Step::Scaffold {
        "hotl serve: "@
    } else {
        "hotl: "@
    }
}

/// The exit code of a failed step: 2 where the command line is at fault. A
/// connection lives on.
pub open spec fn failure_code(route: Route, step: Step) -> Option<i32> {
    if route == Route::Build || route == Route::Open {
        None
    } else if step == Step::ReadSchema || step == Step::ResolveParent {
        Some(2)
    } else {
        Some(1)
    }
}

/// What is said of a step that failed, and the exit code where the process ends
/// with it. `subject` is the path of the schema.
pub fn failed(job: Job, step: Step, subject: &str, error: &str) -> (r: (String, Option<i32>))
    ensures
        r.0@ == speaker(job.route, step) + complaint(step, subject@, error@),
        r.1 == failure_code(job.route, step),
{
    let inner = job.route == Route::Build || job.route == Route::Open;
    let mut s = if inner {
        "".to_owned()
    } else if job.route == Route::Serve && step != Step::Scaffold {
        "hotl serve: ".to_owned()
    } else {
        "hotl: ".to_owned()
    };
    let ghost who = s@;
    match step {
        Step::ReadSchema => {
            s.append("could not read --json-schema `");
            s.append(subject);
            s.append("`: ");
            s.append(error);
        },
        Step::CreateLog => {
            s.append("could not create session log: ");
            s.append(error);
        },
        Step::RecordFork => {
            s.append("could not record the fork point: ");
            s.append(error);
        },
        _ => {
            s.append(error);
        },
    }
    assert(s@ =~= who + complaint(step, subject@, error@));
    let code: Option<i32> = if inner {
        None
    } else if step == Step::ReadSchema || step == Step::ResolveParent {
        Some(2)
    } else {
        Some(1)
    };
    (s, code)
}

/// The schema that a file's text holds, or why it holds none.
pub fn read_schema(text: &str) -> (r: Result<Json, String>)
    ensures
        match r {
            Ok(j) => json_text(text@) == Some(j@),
            Err(e) => json_text(text@) is None && json_error(text@) == Some(e@),
        },
{
    match json_problem(text) {
        Some(e) => Err(e),
        None => match parse_json(text) {
            Some(j) => Ok(j),
            None => Err("".to_owned()),
        },
    }
}

/// What a structured run ends with: the answer to print, or what is said
/// instead, and the exit code.
pub fn structured_end(result: &Result<Json, String>) -> (r: (Result<String, String>, i32))
    ensures
        match result {
            Ok(j) => r.1 == 0 && r.0 is Ok && r.0->Ok_0@ == json_line(j@),
            Err(e) => r.1 == 1 && r.0 is Err && r.0->Err_0@ == "hotl: "@ + e@,
        },
{
    match result {
        Ok(j) => (Ok(render_json(j)), 0),
        Err(e) => {
            let mut s = "hotl: ".to_owned();
            s.append(e.as_str());
            (Err(s), 1)
        },
    }
}

/// Step number `n` of a route, counted from 0, where the route goes that far.
pub open spec fn taken(job: Job, n: nat) -> Option<Step>
    decreases n,
{
    if n == 0 {
        Some(opening(job))
    } else {
        match taken(job, (n - 1) as nat) {
            Some(s) => following(job, s),
            None => None,
        }
    }
}

/// How far along a step is.
pub open spec fn progress(job: Job, step: Step) -> nat {
    match step {
        Step::ReadSchema => 0,
        Step::Arm => if job.route == Route::Open {
            0
        } else {
            4
        },
        Step::ResolveParent => 1,
        Step::WarnCold => 2,
        Step::Select => 3,
        Step::Scaffold => 5,
        Step::Announce => 6,
        Step::CreateLog => 7,
        Step::RecordFork => 8,
        Step::RecordOpening => 9,
        Step::Upkeep => 10,
        Step::RecordSeed => 11,
        Step::Spawn => 12,
        Step::Run => 13,
        Step::Finish => 14,
    }
}

proof fn steps_lead_on(job: Job, n: nat)
    ensures
        taken(job, n) matches Some(s) ==> n <= progress(job, s) <= 14,
    decreases n,
{
    if n > 0 {
        steps_lead_on(job, (n - 1) as nat);
    }
}

/// Every route ends, after fifteen steps at the latest.
pub proof fn routes_end(job: Job, n: nat)
    requires
        n >= 15,
    ensures
        taken(job, n) is None,
{
    steps_lead_on(job, n);
}

/// A headless run warms the provider's connection right before the tools are
/// loaded, so that the handshake overlaps the work on disk.
pub proof fn headless_runs_arm_first(job: Job, n: nat)
    requires
        job.route == Route::Headless,
        taken(job, n) == Some(Step::Scaffold),
    ensures
        n > 0,
        taken(job, (n - 1) as nat) == Some(Step::Arm),
{
}

/// Every session of a connection warms the provider's connection as it opens.
pub proof fn every_open_arms(job: Job)
    requires
        job.route == Route::Open,
    ensures
        taken(job, 0) == Some(Step::Arm),
{
}

proof fn connections_stay_inside(job: Job, n: nat)
    requires
        job.route == Route::Build || job.route == Route::Open,
    ensures
        taken(job, n) matches Some(s) ==> if job.route == Route::Build {
            s == Step::Select || s == Step::Scaffold
        } else {
            s == Step::Arm || s == Step::ResolveParent || progress(job, s) >= 7
        },
    decreases n,
{
    if n > 0 {
        connections_stay_inside(job, (n - 1) as nat);
    }
}

/// What a reload runs prints nothing: the screen belongs to the client by then.
pub proof fn reloads_print_nothing(job: Job, n: nat)
    requires
        job.route == Route::Build || job.route == Route::Open,
    ensures
        taken(job, n) != Some(Step::Announce),
        taken(job, n) != Some(Step::WarnCold),
{
    connections_stay_inside(job, n);
}

/// A reference to a parent session that cannot be resolved is found out before
/// anything else is done, and told as a fault of the command line.
pub proof fn bad_references_cost_nothing(job: Job)
    requires
        job.route == Route::Headless,
        job.resumes,
    ensures
        taken(job, 0) == Some(Step::ResolveParent),
        failure_code(job.route, Step::ResolveParent) == Some(2i32),
{
}

proof fn resumed_sessions_skip_the_seed(job: Job, n: nat)
    requires
        job.resumes,
    ensures
        taken(job, n) != Some(Step::RecordSeed),
    decreases n,
{
    if n > 0 {
        resumed_sessions_skip_the_seed(job, (n - 1) as nat);
    }
}

/// A fresh session logs the items that it starts with, right before it starts,
/// and one that carries on another never logs them again.
pub proof fn seeds_are_logged_once(job: Job, n: nat)
    ensures
        job.resumes ==> taken(job, n) != Some(Step::RecordSeed),
        !job.resumes && taken(job, n) == Some(Step::Spawn) ==> n > 0 && taken(job, (n - 1) as nat)
            == Some(Step::RecordSeed),
{
    if job.resumes {
        resumed_sessions_skip_the_seed(job, n);
    }
}

/// A fork logs the length of its history before anything else of its own.
pub proof fn forks_are_pinned_first(job: Job, n: nat)
    requires
        job.forks,
        taken(job, n) == Some(Step::CreateLog),
    ensures
        taken(job, n + 1) == Some(Step::RecordFork),
{
}

/// A one-shot run lets its hooks come to an end once it has been answered.
pub proof fn one_shots_finish(job: Job, n: nat)
    requires
        job.route == Route::Headless || job.route == Route::Structured,
        taken(job, n) == Some(Step::Run),
    ensures
        taken(job, n + 1) == Some(Step::Finish),
{
}

proof fn steps_are(job: Job, steps: Seq<Step>, n: nat)
    requires
        steps.len() > 0,
        opening(job) == steps[0],
        forall|i: int|
            0 <= i < steps.len() - 1 ==> following(job, #[trigger] steps[i]) == Some(steps[i + 1]),
        following(job, steps.last()) is None,
    ensures
        taken(job, n) == (if n < steps.len() {
            Some(steps[n as int])
        } else {
            None
        }),
    decreases n,
{
    if n > 0 {
        steps_are(job, steps, (n - 1) as nat);
    }
}

/// A headless run finds its parent and warns of a cold cache before anything
/// else, where it has one; selects, arms and loads; says what there is to warn
/// of; makes its log and pins a fork in it; logs how it opens, starts the
/// upkeep, logs a fresh session's seed; and next starts, runs and finishes.
pub proof fn headless_runs_go_so(job: Job, n: nat)
    requires
        job.route == Route::Headless,
    ensures
        ({
            let parent = if job.resumes {
                seq![Step::ResolveParent, Step::WarnCold]
            } else {
                seq![]
            };
            let pin = if job.forks {
                seq![Step::RecordFork]
            } else {
                seq![]
            };
            let seed = if job.resumes {
                seq![]
            } else {
                seq![Step::RecordSeed]
            };
            let steps = parent + seq![
                Step::Select,
                Step::Arm,
                Step::Scaffold,
                Step::Announce,
                Step::CreateLog,
            ] + pin + seq![Step::RecordOpening, Step::Upkeep] + seed + seq![
                Step::Spawn,
                Step::Run,
                Step::Finish,
            ];
            taken(job, n) == (if n < steps.len() {
                Some(steps[n as int])
            } else {
                None
            })
        }),
{
    let parent = if job.resumes {
        seq![Step::ResolveParent, Step::WarnCold]
    } else {
        seq![]
    };
    let pin = if job.forks {
        seq![Step::RecordFork]
    } else {
        seq![]
    };
    let seed = if job.resumes {
        seq![]
    } else {
        seq![Step::RecordSeed]
    };
    let steps = parent + seq![
        Step::Select,
        Step::Arm,
        Step::Scaffold,
        Step::Announce,
        Step::CreateLog,
    ] + pin + seq![Step::RecordOpening, Step::Upkeep] + seed + seq![
        Step::Spawn,
        Step::Run,
        Step::Finish,
    ];
    steps_are(job, steps, n);
}

/// A structured run reads its schema first, and goes on like a headless one
/// without a parent, without arming and without upkeep. A served session does
/// so too, without a schema, and runs until it is shut down.
pub proof fn structured_and_served_runs_go_so(job: Job, n: nat)
    requires
        job.route == Route::Structured || job.route == Route::Serve,
    ensures
        ({
            let schema = if job.route == Route::Structured {
                seq![Step::ReadSchema]
            } else {
                seq![]
            };
            let pin = if job.forks {
                seq![Step::RecordFork]
            } else {
                seq![]
            };
            let seed = if job.resumes {
                seq![]
            } else {
                seq![Step::RecordSeed]
            };
            let end = if job.route == Route::Structured {
                seq![Step::Finish]
            } else {
                seq![]
            };
            let steps = schema + seq![
                Step::Select,
                Step::Scaffold,
                Step::Announce,
                Step::CreateLog,
            ] + pin + seq![Step::RecordOpening] + seed + seq![Step::Spawn, Step::Run] + end;
            taken(job, n) == (if n < steps.len() {
                Some(steps[n as int])
            } else {
                None
            })
        }),
{
    let schema = if job.route == Route::Structured {
        seq![Step::ReadSchema]
    } else {
        seq![]
    };
    let pin = if job.forks {
        seq![Step::RecordFork]
    } else {
        seq![]
    };
    let seed = if job.resumes {
        seq![]
    } else {
        seq![Step::RecordSeed]
    };
    let end = if job.route == Route::Structured {
        seq![Step::Finish]
    } else {
        seq![]
    };
    let steps = schema + seq![Step::Select, Step::Scaffold, Step::Announce, Step::CreateLog] + pin
        + seq![Step::RecordOpening] + seed + seq![Step::Spawn, Step::Run] + end;
    steps_are(job, steps, n);
}

/// What a connection is built from is selected and loaded, no more. Each of its
/// sessions is armed first, finds its parent where it has one, makes its log,
/// pins a fork in it, logs how it opens and a fresh session's seed, and starts.
pub proof fn connections_go_so(job: Job, n: nat)
    requires
        job.route == Route::Build || job.route == Route::Open,
    ensures
        ({
            let parent = if job.resumes {
                seq![Step::ResolveParent]
            } else {
                seq![]
            };
            let pin = if job.forks {
                seq![Step::RecordFork]
            } else {
                seq![]
            };
            let seed = if job.resumes {
                seq![]
            } else {
                seq![Step::RecordSeed]
            };
            let steps = if job.route == Route::Build {
                seq![Step::Select, Step::Scaffold]
            } else {
                seq![Step::Arm] + parent + seq![Step::CreateLog] + pin + seq![Step::RecordOpening]
                    + seed + seq![Step::Spawn]
            };
            taken(job, n) == (if n < steps.len() {
                Some(steps[n as int])
            } else {
                None
            })
        }),
{
    let parent = if job.resumes {
        seq![Step::ResolveParent]
    } else {
        seq![]
    };
    let pin = if job.forks {
        seq![Step::RecordFork]
    } else {
        seq![]
    };
    let seed = if job.resumes {
        seq![]
    } else {
        seq![Step::RecordSeed]
    };
    let steps = if job.route == Route::Build {
        seq![Step::Select, Step::Scaffold]
    } else {
        seq![Step::Arm] + parent + seq![Step::CreateLog] + pin + seq![Step::RecordOpening] + seed
            + seq![Step::Spawn]
    };
    steps_are(job, steps, n);
}

/// A step that failed is told with its own error last and, where a schema could
/// not be read, with the schema's path before it; a connection's client hears
/// nothing but that, and everyone else hears first who speaks. Nothing on a
/// connection ends the process; elsewhere the exit code is 2 for what the
/// command line named and 1 for the rest.
pub proof fn failures_are_told(job: Job, step: Step, subject: Seq<char>, error: Seq<char>)
    ensures
        ({
            let said = speaker(job.route, step) + complaint(step, subject, error);
            let inside = job.route == Route::Build || job.route == Route::Open;
            &&& error.is_suffix_of(said)
            &&& step == Step::ReadSchema ==> crate::text::occurs(said, subject)
            &&& inside ==> speaker(job.route, step).len() == 0
            &&& !inside ==> speaker(job.route, step) == (if job.route == Route::Serve && step
                != Step::Scaffold {
                "hotl serve: "@
            } else {
                "hotl: "@
            })
            &&& failure_code(job.route, step) == (if inside {
                None
            } else if step == Step::ReadSchema || step == Step::ResolveParent {
                Some(2i32)
            } else {
                Some(1i32)
            })
        }),
{
    reveal_strlit("");
    let said = speaker(job.route, step) + complaint(step, subject, error);
    assert(said.skip(said.len() - error.len()) =~= error);
    if step == Step::ReadSchema {
        let k = (speaker(job.route, step) + "could not read --json-schema `"@).len() as int;
        assert(said.subrange(k, k + subject.len()) =~= subject);
        assert(crate::text::occurs_at(said, subject, k));
    }
}

} // verus!
