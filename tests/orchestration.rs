use build_deps::doc::parse_document;
use build_deps::error::Error;
use build_deps::ident::PackageId;
use build_deps::orchestrate::{build_command_args, exit_result, BuildFlags, BuildRun, ExitOutcome};
use build_deps::resolve::resolve_manifest;

fn plain_flags() -> BuildFlags {
    BuildFlags { release: false, target: None, features: vec![], all_features: false, nightly: false, skip_update: false }
}

fn strs(v: &[&str]) -> Vec<String> {
    v.iter().map(|s| s.to_string()).collect()
}

/// Drives a run, answering each invocation from `answer`; returns the
/// invocations made and the result.
fn drive(run: &mut BuildRun, answer: impl Fn(&[String]) -> ExitOutcome) -> (Vec<Vec<String>>, Result<(), Error>) {
    let mut made = Vec::new();
    while let Some(args) = run.next_invocation() {
        let args = args.clone();
        let o = answer(&args);
        made.push(args);
        run.record(o);
    }
    (made, run.outcome().expect("run is over"))
}

#[test]
fn plain_build_arguments() {
    let id = PackageId::new("a", "1.0.0");
    assert_eq!(build_command_args(&id, &plain_flags()), strs(&["build", "-p", "a:1.0.0"]));
}

#[test]
fn all_flags_in_fixed_order() {
    let id = PackageId::new("a", "1.0.0");
    let flags = BuildFlags {
        release: true,
        target: Some("x86_64-unknown-linux-musl".to_string()),
        features: strs(&["f1", "f2"]),
        all_features: false,
        nightly: true,
        skip_update: false,
    };
    assert_eq!(
        build_command_args(&id, &flags),
        strs(&["+nightly", "build", "-p", "a:1.0.0", "--release", "--target=x86_64-unknown-linux-musl", "--features", "f1 f2"])
    );
}

#[test]
fn all_features_takes_precedence() {
    let id = PackageId::new("a", "1.0.0");
    let flags = BuildFlags { features: strs(&["f1"]), all_features: true, ..plain_flags() };
    assert_eq!(build_command_args(&id, &flags), strs(&["build", "-p", "a:1.0.0", "--all-features"]));
}

#[test]
fn exit_status_mapping() {
    assert_eq!(exit_result(ExitOutcome::Exited(0)), Ok(()));
    assert_eq!(exit_result(ExitOutcome::Exited(101)), Err(Error::BuildFailed(101)));
    assert_eq!(exit_result(ExitOutcome::Signalled), Err(Error::ProcessTerminated));
    assert_eq!(exit_result(ExitOutcome::SpawnFailed), Err(Error::ProcessSpawn));
}

#[test]
fn failure_stops_remaining_builds() {
    let ids = vec![PackageId::new("a", "1.0.0"), PackageId::new("b", "2.0.0")];
    let mut run = BuildRun::new(&ids, &plain_flags());
    let (made, result) = drive(&mut run, |args| {
        if args.iter().any(|a| a == "a:1.0.0") { ExitOutcome::Exited(1) } else { ExitOutcome::Exited(0) }
    });
    assert_eq!(made, vec![strs(&["build", "-p", "a:1.0.0"])]);
    assert_eq!(result, Err(Error::BuildFailed(1)));
}

#[test]
fn empty_plan_succeeds_at_once() {
    let run = BuildRun::new(&vec![], &plain_flags());
    assert!(run.next_invocation().is_none());
    assert_eq!(run.outcome(), Some(Ok(())));
}

#[test]
fn end_to_end_manifest_build() {
    let d = parse_document("dependencies = { foo = \"1.0\", bar = { version = \"2.0\" } }\n").unwrap();
    let meta = vec![PackageId::new("foo", "1.0.4"), PackageId::new("bar", "2.0.1")];
    let ids = resolve_manifest(&d, &meta).unwrap();
    let mut run = BuildRun::new(&ids, &plain_flags());
    let (made, result) = drive(&mut run, |_| ExitOutcome::Exited(0));
    assert_eq!(made, vec![strs(&["build", "-p", "foo:1.0.4"]), strs(&["build", "-p", "bar:2.0.1"])]);
    assert_eq!(result, Ok(()));
}
