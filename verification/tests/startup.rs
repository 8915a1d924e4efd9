//! The routes to a session, and undoing what one did.
use hotl::json::Json;
use hotl::startup::{
    failed, first, next, read_schema, structured_end, Job, Route, Step,
};
use hotl::lineage::CacheTtl;
use hotl::undo::{agreed, is_forced, proposal, snapshots_note, undone, Snapshots};

fn job(route: Route, resumes: bool, forks: bool) -> Job {
    Job { route, resumes, forks }
}

/// The steps of a route, in their order.
fn steps(job: Job) -> Vec<Step> {
    let mut all = vec![first(job)];
    while let Some(s) = next(job, *all.last().unwrap()) {
        all.push(s);
        assert!(all.len() <= 15, "{all:?}");
    }
    all
}

fn at(steps: &[Step], step: Step) -> usize {
    steps.iter().position(|s| *s == step).unwrap()
}

#[test]
fn run_session_arms_the_provider_before_scaffolding() {
    for forks in [false, true] {
        let all = steps(job(Route::Headless, forks, forks));
        assert!(
            at(&all, Step::Arm) < at(&all, Step::Scaffold),
            "a run must arm the provider before the scaffold consumes it: {all:?}"
        );
        assert!(at(&all, Step::Select) < at(&all, Step::Arm));
    }
}

#[test]
fn acp_factory_arms_the_provider_on_every_session_open() {
    for (resumes, forks) in [(false, false), (true, false), (true, true)] {
        let all = steps(job(Route::Open, resumes, forks));
        assert_eq!(all[0], Step::Arm, "every session open must arm the provider");
        assert_eq!(*all.last().unwrap(), Step::Spawn);
    }
}

#[test]
fn the_reloadable_build_path_has_no_direct_output() {
    for route in [Route::Build, Route::Open] {
        let all = steps(job(route, false, false));
        assert!(
            !all.contains(&Step::Announce) && !all.contains(&Step::WarnCold),
            "{route:?} prints directly — a `/reload` would scribble on the alternate screen"
        );
    }
    assert_eq!(
        steps(job(Route::Build, false, false)),
        vec![Step::Select, Step::Scaffold]
    );
}

#[test]
fn each_route_logs_its_seed_where_it_is_fresh() {
    let all = steps(job(Route::Headless, true, true));
    assert_eq!(all[0], Step::ResolveParent);
    assert_eq!(all[at(&all, Step::CreateLog) + 1], Step::RecordFork);
    assert!(!all.contains(&Step::RecordSeed));
    let all = steps(job(Route::Serve, false, false));
    assert_eq!(all[at(&all, Step::Spawn) - 1], Step::RecordSeed);
    assert_eq!(*all.last().unwrap(), Step::Run);
    let all = steps(job(Route::Structured, false, false));
    assert_eq!(all[0], Step::ReadSchema);
    assert_eq!(*all.last().unwrap(), Step::Finish);
}

#[test]
fn a_failed_step_names_the_speaker_and_the_code() {
    let said = |route: Route, step: Step| failed(job(route, false, false), step, "s.json", "boom");
    assert_eq!(
        said(Route::Structured, Step::ReadSchema),
        ("hotl: could not read --json-schema `s.json`: boom".to_string(), Some(2))
    );
    assert_eq!(said(Route::Headless, Step::ResolveParent), ("hotl: boom".to_string(), Some(2)));
    assert_eq!(
        said(Route::Serve, Step::CreateLog),
        ("hotl serve: could not create session log: boom".to_string(), Some(1))
    );
    assert_eq!(said(Route::Serve, Step::Scaffold), ("hotl: boom".to_string(), Some(1)));
    assert_eq!(
        said(Route::Open, Step::RecordFork),
        ("could not record the fork point: boom".to_string(), None)
    );
}

#[test]
fn a_schema_is_read_or_the_reader_says_why() {
    assert_eq!(
        read_schema("{\"type\": \"object\"}"),
        Ok(Json::object().with("type", Json::text("object")))
    );
    let err = read_schema("{\"type\": }").unwrap_err();
    assert!(err.contains("line 1"), "{err}");
}

#[test]
fn a_structured_run_prints_the_answer_alone() {
    let answer = Json::object().with("n", Json::Uint(3));
    assert_eq!(structured_end(&Ok(answer)), (Ok("{\"n\":3}".to_string()), 0));
    assert_eq!(structured_end(&Err("no fit".to_string())), (Err("hotl: no fit".to_string()), 1));
}

#[test]
fn an_undo_proposes_only_what_it_found() {
    assert!(proposal(&Snapshots::Missing).is_err());
    assert!(proposal(&Snapshots::Unreadable { session: "s1".to_string() })
        .unwrap_err()
        .contains("s1"));
    assert!(proposal(&Snapshots::NoneBefore { session: "s1".to_string() })
        .unwrap_err()
        .contains("no pre-batch snapshot"));
    assert_eq!(
        proposal(&Snapshots::Found {
            work_tree: "/w".to_string(),
            label: "l".to_string(),
            session: "s1".to_string()
        }),
        Ok("restore `/w` to snapshot \"l\" of session s1?".to_string())
    );
    assert!(is_forced(&["undo".to_string(), "-f".to_string()]));
    assert!(!is_forced(&["undo".to_string()]));
    assert!(agreed("y\n") && agreed("yes") && !agreed("n\n") && !agreed(""));
}

#[test]
fn an_undo_lists_what_it_restored() {
    let (said, code) = undone("l", &Ok(vec!["a.rs".to_string(), "b.rs".to_string()]));
    assert_eq!(
        said.unwrap(),
        "restored 2 file(s) to \"l\":\n  a.rs\n  b.rs\n(files created after the snapshot are kept, listed above if changed)"
    );
    assert_eq!(code, 0);
    assert!(undone("l", &Ok(Vec::new())).0.unwrap().contains("nothing differed"));
    assert_eq!(undone("l", &Err("boom".to_string())), (Err("hotl: undo failed: boom".to_string()), 1));
}

#[test]
fn routes_with_a_human_keep_the_cache_longer() {
    assert_eq!(Route::Headless.cache_ttl(), CacheTtl::FiveMinutes);
    assert_eq!(Route::Structured.cache_ttl(), CacheTtl::FiveMinutes);
    assert_eq!(Route::Serve.cache_ttl(), CacheTtl::OneHour);
    assert_eq!(Route::Build.cache_ttl(), CacheTtl::OneHour);
    assert_eq!(Route::Open.cache_ttl(), CacheTtl::OneHour);
}

#[test]
fn a_session_without_snapshots_says_so() {
    assert_eq!(snapshots_note(true), None);
    assert_eq!(
        snapshots_note(false).as_deref(),
        Some("hotl: git not found — `hotl undo` snapshots disabled this session")
    );
}
