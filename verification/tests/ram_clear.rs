use glassbar::ram_clear::{
    clear_cached_ram_blocking, enable_privilege, helper_exit_code, helper_params, is_elevated,
    nt_memory_command, outcome_of, perform_clear, read_mem, result_path_arg, run_elevated_helper,
    run_helper, sweep_pids, trim_working_sets, ClearAction, ClearEvent, ClearRamOutcome, ClearRoute,
    ClearRun, HelperAction, HelperEvent, Launch, MemReading, NtCall, PageCounts, PrivilegeAction,
    PrivilegeEvent, MEMORY_PURGE_STANDBY_LIST,
};

const MB: u64 = 1024 * 1024;

fn text(s: &str) -> String {
    s.to_string()
}

#[test]
fn only_an_elevated_process_purges_itself() {
    assert_eq!(clear_cached_ram_blocking(true), ClearRoute::InProcess);
    assert_eq!(clear_cached_ram_blocking(false), ClearRoute::ElevatedHelper);
    assert!(is_elevated(true, true, 1));
    assert!(!is_elevated(true, true, 0));
    assert!(!is_elevated(true, false, 1));
    assert!(!is_elevated(false, true, 1));
}

fn privilege_result(a: PrivilegeAction) -> Result<(), String> {
    match a {
        PrivilegeAction::Finish(r) => r,
        other => panic!("{other:?}"),
    }
}

#[test]
fn privileges_are_enabled_step_by_step() {
    let opened = PrivilegeEvent::TokenOpened(Ok(()));
    assert!(matches!(enable_privilege(opened), PrivilegeAction::LookUp));
    let found = PrivilegeEvent::LookedUp(Ok(()));
    assert!(matches!(enable_privilege(found), PrivilegeAction::Adjust));
    let adjusted = PrivilegeEvent::Adjusted { result: Ok(()), not_all_assigned: false };
    assert_eq!(privilege_result(enable_privilege(adjusted)), Ok(()));
}

#[test]
fn privileges_name_each_failure() {
    let r = enable_privilege(PrivilegeEvent::TokenOpened(Err(text("x"))));
    assert_eq!(privilege_result(r), Err(text("OpenProcessToken failed: x")));
    let r = enable_privilege(PrivilegeEvent::LookedUp(Err(text("x"))));
    assert_eq!(privilege_result(r), Err(text("LookupPrivilegeValue failed: x")));
    let failed = PrivilegeEvent::Adjusted { result: Err(text("x")), not_all_assigned: true };
    assert_eq!(
        privilege_result(enable_privilege(failed)),
        Err(text("AdjustTokenPrivileges failed: x"))
    );
    let missing = PrivilegeEvent::Adjusted { result: Ok(()), not_all_assigned: true };
    assert_eq!(
        privilege_result(enable_privilege(missing)),
        Err(text("privilege not held by token"))
    );
}

#[test]
fn a_sweep_skips_the_idle_process() {
    assert_eq!(sweep_pids(true, &vec![0, 4, 8, 0, 12, 99], 20), vec![4, 8, 12]);
    assert_eq!(sweep_pids(true, &vec![4, 8], 4000), vec![4, 8]);
    assert_eq!(sweep_pids(true, &vec![4, 8], 7), vec![4]);
    assert_eq!(sweep_pids(false, &vec![4, 8], 8), Vec::<u32>::new());
    assert_eq!(trim_working_sets(&vec![true, false, true]), 2);
    assert_eq!(trim_working_sets(&vec![]), 0);
}

#[test]
fn memory_commands_name_each_failure() {
    assert_eq!(nt_memory_command(MEMORY_PURGE_STANDBY_LIST, NtCall::Status(0)), Ok(()));
    assert_eq!(
        nt_memory_command(4, NtCall::Status(-1073741727)),
        Err(text(
            "NtSetSystemInformation(SystemMemoryListInformation, 4) -> NTSTATUS 0xC0000061"
        ))
    );
    assert_eq!(
        nt_memory_command(3, NtCall::NoModule(text("x"))),
        Err(text("ntdll.dll: x"))
    );
    assert_eq!(
        nt_memory_command(3, NtCall::NoFunction),
        Err(text("NtSetSystemInformation not found in ntdll.dll"))
    );
}

#[test]
fn outcomes_are_counted_in_megabytes() {
    let pages = PageCounts { cache: 1000, available: 500, page_size: 4096 };
    assert_eq!(read_mem(Ok(pages)), Ok(MemReading { cache: 4_096_000, available: 2_048_000 }));
    assert_eq!(read_mem(Err(text("x"))), Err(text("GetPerformanceInfo failed: x")));
    let o = outcome_of(
        MemReading { cache: 10 * MB + 1, available: 7 * MB },
        MemReading { cache: 4 * MB, available: 5 * MB - 1 },
        9,
    );
    assert_eq!(o.status, "done");
    assert_eq!((o.freed_mb, o.cache_before_mb, o.cache_after_mb), (6, 10, 4));
    assert_eq!(o.avail_delta_mb, -2);
    assert_eq!(o.trimmed_processes, 9);
    assert_eq!(o.error, None);
    let grown = outcome_of(
        MemReading { cache: MB, available: 0 },
        MemReading { cache: 3 * MB, available: 3 * MB },
        0,
    );
    assert_eq!((grown.freed_mb, grown.avail_delta_mb), (0, 3));
}

fn before() -> MemReading {
    MemReading { cache: 8 * MB, available: MB }
}

fn after() -> MemReading {
    MemReading { cache: 2 * MB, available: 6 * MB }
}

#[test]
fn a_purge_goes_through_its_steps() {
    let mut run = ClearRun::new();
    assert!(matches!(
        perform_clear(&mut run, ClearEvent::ReadBefore(Ok(before()))),
        ClearAction::EnableProfilePrivilege
    ));
    assert!(matches!(
        perform_clear(&mut run, ClearEvent::ProfilePrivilege(Ok(()))),
        ClearAction::EnableDebugPrivilege
    ));
    assert!(matches!(
        perform_clear(&mut run, ClearEvent::DebugPrivilege(Err(text("ignored")))),
        ClearAction::TrimWorkingSets
    ));
    assert!(matches!(
        perform_clear(&mut run, ClearEvent::Trimmed(5)),
        ClearAction::FlushModifiedList
    ));
    assert!(matches!(
        perform_clear(&mut run, ClearEvent::Flushed(Err(text("ignored")))),
        ClearAction::PurgeStandbyList
    ));
    assert!(matches!(
        perform_clear(&mut run, ClearEvent::Purged(Ok(()))),
        ClearAction::ReadMemory
    ));
    match perform_clear(&mut run, ClearEvent::ReadAfter(Ok(after()))) {
        ClearAction::Finish(Ok(o)) => {
            assert_eq!((o.freed_mb, o.avail_delta_mb, o.trimmed_processes), (6, 5, 5));
        }
        other => panic!("{other:?}"),
    }
}

fn clear_error(event: ClearEvent) -> String {
    match perform_clear(&mut ClearRun::new(), event) {
        ClearAction::Finish(Err(e)) => e,
        other => panic!("{other:?}"),
    }
}

#[test]
fn a_purge_names_each_failure() {
    assert_eq!(clear_error(ClearEvent::ReadBefore(Err(text("x")))), "x");
    assert_eq!(
        clear_error(ClearEvent::ProfilePrivilege(Err(text("x")))),
        "SeProfileSingleProcessPrivilege: x (needs an elevated token)"
    );
    assert_eq!(clear_error(ClearEvent::Purged(Err(text("y")))), "y");
    assert_eq!(clear_error(ClearEvent::ReadAfter(Err(text("z")))), "z");
}

#[test]
fn the_result_path_follows_the_flag() {
    let args = |list: &[&str]| list.iter().map(|s| text(s)).collect::<Vec<String>>();
    assert_eq!(result_path_arg(&args(&["bar.exe", "--clear-ram", "out.json"])), Some(2));
    assert_eq!(result_path_arg(&args(&["bar.exe", "--clear-ram"])), None);
    assert_eq!(result_path_arg(&args(&["bar.exe", "out.json"])), None);
    assert_eq!(result_path_arg(&args(&["--clear-ram", "--clear-ram", "b"])), Some(1));
    assert_eq!(result_path_arg(&vec![]), None);
    assert_eq!(helper_params("C:\\a b\\out.json"), "--clear-ram \"C:\\a b\\out.json\"");
}

#[test]
fn the_helper_reports_its_result() {
    let (o, code) = run_helper(Ok(outcome_of(before(), after(), 1)));
    assert_eq!((o.status.as_str(), code), ("done", 0));
    let (o, code) = run_helper(Err(text("no luck")));
    assert_eq!((o.status.as_str(), o.error, code), ("error", Some(text("no luck")), 1));
    assert_eq!((o.freed_mb, o.trimmed_processes), (0, 0));
    assert_eq!(helper_exit_code(1, true), 1);
    assert_eq!(helper_exit_code(0, false), 2);
}

fn helper_result(a: HelperAction) -> Result<ClearRamOutcome, String> {
    match a {
        HelperAction::Finish(r) => r,
        other => panic!("{other:?}"),
    }
}

#[test]
fn the_helper_is_used_step_by_step() {
    let found = HelperEvent::ExeFound(Ok(()));
    assert!(matches!(run_elevated_helper(found), HelperAction::LaunchHelper));
    let started = HelperEvent::Launched(Launch::Started { has_handle: true });
    assert!(matches!(run_elevated_helper(started), HelperAction::WaitForHelper));
    let ended = HelperEvent::Waited { ended: true };
    assert!(matches!(run_elevated_helper(ended), HelperAction::ReadFile));
    let read = HelperEvent::FileRead { code: 0, read: Ok(()) };
    assert!(matches!(run_elevated_helper(read), HelperAction::ParseFile));
    let parsed = HelperEvent::Parsed { code: 0, outcome: Ok(outcome_of(before(), after(), 1)) };
    assert_eq!(helper_result(run_elevated_helper(parsed)).unwrap().freed_mb, 6);
}

#[test]
fn declining_is_no_failure() {
    let o = helper_result(run_elevated_helper(HelperEvent::Launched(Launch::Declined))).unwrap();
    assert_eq!((o.status.as_str(), o.error, o.freed_mb), ("cancelled", None, 0));
}

#[test]
fn using_the_helper_names_each_failure() {
    let error = |event: HelperEvent| helper_result(run_elevated_helper(event)).err().unwrap();
    assert_eq!(error(HelperEvent::ExeFound(Err(text("x")))), "current_exe failed: x");
    assert_eq!(
        error(HelperEvent::Launched(Launch::Failed(text("x")))),
        "elevated relaunch failed: x"
    );
    assert_eq!(
        error(HelperEvent::Launched(Launch::Started { has_handle: false })),
        "elevated helper started but returned no process handle"
    );
    assert_eq!(
        error(HelperEvent::Waited { ended: false }),
        "ram-clear helper timed out after 60s"
    );
    assert_eq!(
        error(HelperEvent::FileRead { code: 3, read: Err(text("x")) }),
        "helper exited (code 3) but left no result file: x"
    );
    assert_eq!(
        error(HelperEvent::Parsed { code: 0, outcome: Err(text("x")) }),
        "bad helper result file: x"
    );
    let mut o = ClearRamOutcome::default();
    o.status = text("error");
    assert_eq!(
        error(HelperEvent::Parsed { code: 7, outcome: Ok(o) }),
        "helper failed (exit code 7)"
    );
}

#[test]
fn only_done_and_cancelled_come_out_as_outcomes() {
    let judge = |status: &str| {
        let mut o = ClearRamOutcome::default();
        o.status = text(status);
        o.freed_mb = 5;
        helper_result(run_elevated_helper(HelperEvent::Parsed { code: 0, outcome: Ok(o) }))
    };
    assert_eq!(judge("done").unwrap().freed_mb, 5);
    assert_eq!(judge("cancelled").unwrap().status, "cancelled");
    assert_eq!(
        judge("partial").err(),
        Some(text("bad helper result file: unexpected status \"partial\""))
    );
    assert_eq!(
        judge("").err(),
        Some(text("bad helper result file: unexpected status \"\""))
    );
    assert!(judge("Done").is_err());
}

#[test]
fn the_helpers_result_comes_through() {
    let (o, _) = run_helper(Err(text("no luck")));
    let r = helper_result(run_elevated_helper(HelperEvent::Parsed { code: 1, outcome: Ok(o) }));
    assert_eq!(r.err(), Some(text("no luck")));
    let (o, _) = run_helper(Ok(outcome_of(before(), after(), 4)));
    let r = helper_result(run_elevated_helper(HelperEvent::Parsed { code: 0, outcome: Ok(o) }));
    assert_eq!(r.unwrap().trimmed_processes, 4);
}
