//! The cached-memory purge.
//!
//! Purging needs an elevated process. A resident instance that is not elevated starts itself
//! again as an elevated helper, which purges, writes its outcome to a file and ends; the resident
//! instance waits and reads the file. The caller makes the system calls and turns outcomes into
//! JSON and back; their order, what a failure means and the numbers are decided here.

use vstd::prelude::*;

use crate::text;

verus! {

/// Bytes in a megabyte.
pub const MB: u64 = 0x10_0000;

/// The system information class of the memory lists.
pub const SYSTEM_MEMORY_LIST_INFORMATION: i32 = 0x50;

/// Memory-list command: write modified pages out.
pub const MEMORY_FLUSH_MODIFIED_LIST: i32 = 3;

/// Memory-list command: drop the standby pages.
pub const MEMORY_PURGE_STANDBY_LIST: i32 = 4;

/// How long the resident instance waits for the helper.
pub const HELPER_WAIT_MS: u32 = 60_000;

/// How many process ids a sweep asks for.
pub const MAX_PIDS: usize = 4096;

/// The outcome of a purge, as the helper writes it and the user interface gets it. The status is
/// "done" or "cancelled"; "error" stands only in the helper's file.
#[derive(Clone, Debug)]
pub struct ClearRamOutcome {
    pub status: String,
    /// How much the system cache shrank.
    pub freed_mb: u64,
    /// Change of the available memory.
    pub avail_delta_mb: i64,
    pub cache_before_mb: u64,
    pub cache_after_mb: u64,
    /// How many processes had their working set trimmed.
    pub trimmed_processes: u32,
    pub error: Option<String>,
}

/// The value of a `ClearRamOutcome`.
#[verifier::ext_equal]
pub struct OutcomeView {
    pub status: Seq<char>,
    pub freed_mb: u64,
    pub avail_delta_mb: i64,
    pub cache_before_mb: u64,
    pub cache_after_mb: u64,
    pub trimmed_processes: u32,
    pub error: Option<Seq<char>>,
}

impl View for ClearRamOutcome {
    type V = OutcomeView;

    open spec fn view(&self) -> OutcomeView {
        OutcomeView {
            status: self.status@,
            freed_mb: self.freed_mb,
            avail_delta_mb: self.avail_delta_mb,
            cache_before_mb: self.cache_before_mb,
            cache_after_mb: self.cache_after_mb,
            trimmed_processes: self.trimmed_processes,
            error: match self.error {
                Some(e) => Some(e@),
                None => None,
            },
        }
    }
}

/// An outcome with a status and an error and nothing else.
pub open spec fn bare_outcome(status: Seq<char>, error: Option<Seq<char>>) -> OutcomeView {
    OutcomeView {
        status,
        freed_mb: 0,
        avail_delta_mb: 0,
        cache_before_mb: 0,
        cache_after_mb: 0,
        trimmed_processes: 0,
        error,
    }
}

impl Default for ClearRamOutcome {
    fn default() -> (o: ClearRamOutcome)
        ensures
            o@ == bare_outcome(seq![], None),
    {
        ClearRamOutcome {
            status: String::new(),
            freed_mb: 0,
            avail_delta_mb: 0,
            cache_before_mb: 0,
            cache_after_mb: 0,
            trimmed_processes: 0,
            error: None,
        }
    }
}

/// The value of the result of a purge.
pub open spec fn result_view(r: Result<ClearRamOutcome, String>) -> Result<OutcomeView, Seq<char>> {
    match r {
        Ok(o) => Ok(o@),
        Err(e) => Err(e@),
    }
}

/// The error of a step; none where the step succeeded.
pub open spec fn step_error(r: Result<(), String>) -> Option<Seq<char>> {
    match r {
        Ok(_) => None,
        Err(e) => Some(e@),
    }
}

fn join(a: &str, b: &str) -> (s: String)
    ensures
        s@ == a@ + b@,
{
    let mut s = a.to_owned();
    s.append(b);
    s
}

/// Whether two texts are the same.
fn same_text(a: &str, b: &str) -> (r: bool)
    ensures
        r == (a@ == b@),
{
    let n: usize = a.unicode_len();
    if n != b.unicode_len() {
        return false;
    }
    let mut i: usize = 0;
    while i < n
        invariant
            i <= n,
            n == a@.len(),
            n == b@.len(),
            forall|j: int| 0 <= j < i ==> a@[j] == b@[j],
        decreases n - i,
    {
        if a.get_char(i) != b.get_char(i) {
            return false;
        }
        i += 1;
    }
    assert(a@ =~= b@);
    true
}

// ---------------------------------------------------------------- where to purge

/// Where a purge runs.
#[derive(Clone, Copy, Debug, PartialEq, Eq, Structural)]
pub enum ClearRoute {
    InProcess,
    ElevatedHelper,
}

/// Chooses where the purge runs: in this process if it is elevated, else in a helper.
pub fn clear_cached_ram_blocking(elevated: bool) -> (route: ClearRoute)
    ensures
        route == (if elevated {
            ClearRoute::InProcess
        } else {
            ClearRoute::ElevatedHelper
        }),
{
    if elevated {
        ClearRoute::InProcess
    } else {
        ClearRoute::ElevatedHelper
    }
}

/// Whether a process is elevated: its token could be opened and asked, and says so.
pub fn is_elevated(token_opened: bool, queried: bool, token_is_elevated: u32) -> (r: bool)
    ensures
        r == (token_opened && queried && token_is_elevated != 0),
{
    token_opened && queried && token_is_elevated != 0
}

// ---------------------------------------------------------------- privileges

/// What happened while a privilege was being enabled.
#[derive(Debug)]
pub enum PrivilegeEvent {
    /// The token of the process was opened, or could not be.
    TokenOpened(Result<(), String>),
    /// The privilege was looked up by name.
    LookedUp(Result<(), String>),
    /// The token was adjusted; `not_all_assigned` is what the system left as its last error.
    Adjusted { result: Result<(), String>, not_all_assigned: bool },
}

/// What to do next.
#[derive(Debug)]
pub enum PrivilegeAction {
    LookUp,
    Adjust,
    /// Close the token, where it is open; this is the result.
    Finish(Result<(), String>),
}

/// The value of a `PrivilegeAction`.
#[verifier::ext_equal]
pub enum PrivilegeActionView {
    LookUp,
    Adjust,
    Finish(Option<Seq<char>>),
}

impl View for PrivilegeAction {
    type V = PrivilegeActionView;

    open spec fn view(&self) -> PrivilegeActionView {
        match self {
            PrivilegeAction::LookUp => PrivilegeActionView::LookUp,
            PrivilegeAction::Adjust => PrivilegeActionView::Adjust,
            PrivilegeAction::Finish(r) => PrivilegeActionView::Finish(step_error(*r)),
        }
    }
}

/// What follows from an event. Adjusting a token succeeds even where the token does not hold the
/// privilege: only the last error tells.
pub open spec fn privilege_next(event: PrivilegeEvent) -> PrivilegeActionView {
    match event {
        PrivilegeEvent::TokenOpened(Ok(_)) => PrivilegeActionView::LookUp,
        PrivilegeEvent::TokenOpened(Err(e)) => PrivilegeActionView::Finish(
            Some("OpenProcessToken failed: "@ + e@),
        ),
        PrivilegeEvent::LookedUp(Ok(_)) => PrivilegeActionView::Adjust,
        PrivilegeEvent::LookedUp(Err(e)) => PrivilegeActionView::Finish(
            Some("LookupPrivilegeValue failed: "@ + e@),
        ),
        PrivilegeEvent::Adjusted { result: Err(e), not_all_assigned } => PrivilegeActionView::Finish(
            Some("AdjustTokenPrivileges failed: "@ + e@),
        ),
        PrivilegeEvent::Adjusted { result: Ok(_), not_all_assigned } => PrivilegeActionView::Finish(
            if not_all_assigned {
                Some("privilege not held by token"@)
            } else {
                None
            },
        ),
    }
}

/// One step of enabling a privilege.
pub fn enable_privilege(event: PrivilegeEvent) -> (a: PrivilegeAction)
    ensures
        a@ == privilege_next(event),
{
    match event {
        PrivilegeEvent::TokenOpened(Ok(_)) => PrivilegeAction::LookUp,
        PrivilegeEvent::TokenOpened(Err(e)) => PrivilegeAction::Finish(
            Err(join("OpenProcessToken failed: ", e.as_str())),
        ),
        PrivilegeEvent::LookedUp(Ok(_)) => PrivilegeAction::Adjust,
        PrivilegeEvent::LookedUp(Err(e)) => PrivilegeAction::Finish(
            Err(join("LookupPrivilegeValue failed: ", e.as_str())),
        ),
        PrivilegeEvent::Adjusted { result, not_all_assigned } => match result {
            Err(e) => PrivilegeAction::Finish(
                Err(join("AdjustTokenPrivileges failed: ", e.as_str())),
            ),
            Ok(_) => if not_all_assigned {
                PrivilegeAction::Finish(Err("privilege not held by token".to_owned()))
            } else {
                PrivilegeAction::Finish(Ok(()))
            },
        },
    }
}

// ---------------------------------------------------------------- working sets

/// How many process ids the system filled in: as many as the bytes it gave hold, and never more
/// than there was room for.
pub open spec fn filled_pids(room: nat, needed_bytes: u32) -> nat {
    if needed_bytes / 4 < room {
        (needed_bytes / 4) as nat
    } else {
        room
    }
}

/// The processes that a sweep goes through: those that were filled in, without the idle process;
/// none where the system did not list them.
pub open spec fn sweep_targets(listed: bool, pids: Seq<u32>, needed_bytes: u32) -> Seq<u32> {
    if listed {
        pids.take(filled_pids(pids.len(), needed_bytes) as int).filter(|p: u32| p != 0)
    } else {
        seq![]
    }
}

/// Lists the processes whose working sets are to be trimmed. `listed` says whether the system
/// filled `pids` in.
pub fn sweep_pids(listed: bool, pids: &Vec<u32>, needed_bytes: u32) -> (targets: Vec<u32>)
    ensures
        targets@ == sweep_targets(listed, pids@, needed_bytes),
{
    if !listed {
        return Vec::new();
    }
    let ghost wants = |p: u32| p != 0;
    let mut count: usize = pids.len();
    if ((needed_bytes / 4) as usize) < count {
        count = (needed_bytes / 4) as usize;
    }
    let ghost filled = pids@.take(count as int);
    let mut targets: Vec<u32> = Vec::new();
    let mut i: usize = 0;
    assert(filled.take(0).filter(wants) =~= seq![]) by {
        reveal(Seq::filter);
    }
    while i < count
        invariant
            i <= count <= pids.len(),
            filled == pids@.take(count as int),
            wants == (|p: u32| p != 0),
            targets@ == filled.take(i as int).filter(wants),
        decreases count - i,
    {
        proof {
            reveal(Seq::filter);
            assert(filled.take(i + 1).drop_last() =~= filled.take(i as int));
        }
        if pids[i] != 0 {
            targets.push(pids[i]);
        }
        i += 1;
    }
    assert(filled.take(count as int) =~= filled);
    targets
}

/// How many of the processes accepted.
pub open spec fn accepted_count(results: Seq<bool>) -> nat
    decreases results.len(),
{
    if results.len() == 0 {
        0
    } else {
        accepted_count(results.drop_last()) + if results.last() {
            1nat
        } else {
            0nat
        }
    }
}

/// Counts the processes whose working set was trimmed. `results` has an entry for each target
/// that could be opened.
pub fn trim_working_sets(results: &Vec<bool>) -> (trimmed: u32)
    requires
        results.len() <= u32::MAX,
    ensures
        trimmed == accepted_count(results@),
{
    let mut trimmed: u32 = 0;
    let mut i: usize = 0;
    assert(results@.take(0) =~= seq![]);
    while i < results.len()
        invariant
            i <= results.len() <= u32::MAX,
            trimmed <= i,
            trimmed == accepted_count(results@.take(i as int)),
        decreases results.len() - i,
    {
        assert(results@.take(i + 1).drop_last() =~= results@.take(i as int));
        if results[i] {
            trimmed += 1;
        }
        i += 1;
    }
    assert(results@.take(i as int) =~= results@);
    trimmed
}

// ---------------------------------------------------------------- memory commands

/// How a memory-list command went.
#[derive(Debug)]
pub enum NtCall {
    /// The system library was not found.
    NoModule(String),
    /// The system library does not have the function.
    NoFunction,
    /// The function returned this status.
    Status(i32),
}

/// The 32-bit pattern of a status.
pub open spec fn status_bits(status: i32) -> nat {
    if status < 0 {
        (status + 0x1_0000_0000) as nat
    } else {
        status as nat
    }
}

/// The error of a memory-list command; none where it succeeded.
pub open spec fn nt_error(command: i32, call: NtCall) -> Option<Seq<char>> {
    match call {
        NtCall::NoModule(e) => Some("ntdll.dll: "@ + e@),
        NtCall::NoFunction => Some("NtSetSystemInformation not found in ntdll.dll"@),
        NtCall::Status(status) => if status == 0 {
            None
        } else {
            Some(
                "NtSetSystemInformation(SystemMemoryListInformation, "@ + text::decimal(
                    command as int,
                ) + ") -> NTSTATUS 0x"@ + text::zero_padded(
                    text::numeral(status_bits(status), 16, true),
                    8,
                ),
            )
        },
    }
}

/// Judges a memory-list command.
pub fn nt_memory_command(command: i32, call: NtCall) -> (r: Result<(), String>)
    ensures
        step_error(r) == nt_error(command, call),
{
    match call {
        NtCall::NoModule(e) => Err(join("ntdll.dll: ", e.as_str())),
        NtCall::NoFunction => Err("NtSetSystemInformation not found in ntdll.dll".to_owned()),
        NtCall::Status(status) => {
            if status == 0 {
                return Ok(());
            }
            let bits: u32 = if status < 0 {
                (status as i64 + 0x1_0000_0000) as u32
            } else {
                status as u32
            };
            let mut s = "NtSetSystemInformation(SystemMemoryListInformation, ".to_owned();
            text::push_decimal(&mut s, command as i128);
            s.append(") -> NTSTATUS 0x");
            text::push_hex_padded(&mut s, bits, 8, true);
            Err(s)
        },
    }
}

// ---------------------------------------------------------------- memory readings

/// A reading of the system's memory, in bytes.
#[derive(Clone, Copy, Debug, PartialEq, Eq, Structural)]
pub struct MemReading {
    /// Standby list and system working set.
    pub cache: u64,
    /// Available physical memory.
    pub available: u64,
}

/// A reading of the system's memory, in pages.
#[derive(Clone, Copy, Debug, PartialEq, Eq, Structural)]
pub struct PageCounts {
    pub cache: u64,
    pub available: u64,
    /// Bytes in a page.
    pub page_size: u64,
}

/// The value of a reading, or its error text.
pub open spec fn reading_view(r: Result<MemReading, String>) -> Result<MemReading, Seq<char>> {
    match r {
        Ok(m) => Ok(m),
        Err(e) => Err(e@),
    }
}

/// Turns a reading in pages into one in bytes.
pub fn read_mem(info: Result<PageCounts, String>) -> (r: Result<MemReading, String>)
    requires
        info matches Ok(p) ==> {
            &&& p.cache * p.page_size <= u64::MAX
            &&& p.available * p.page_size <= u64::MAX
        },
    ensures
        reading_view(r) == match info {
            Ok(p) => Ok(
                MemReading {
                    cache: (p.cache * p.page_size) as u64,
                    available: (p.available * p.page_size) as u64,
                },
            ),
            Err(e) => Err("GetPerformanceInfo failed: "@ + e@),
        },
{
    match info {
        Ok(p) => Ok(
            MemReading { cache: p.cache * p.page_size, available: p.available * p.page_size },
        ),
        Err(e) => Err(join("GetPerformanceInfo failed: ", e.as_str())),
    }
}

/// Division that drops the remainder, towards zero.
pub open spec fn truncated_div(a: int, b: int) -> int {
    if a >= 0 {
        a / b
    } else {
        -((-a) / b)
    }
}

/// The difference of two readings, as the 64-bit signed word that has it.
pub open spec fn signed_difference(after: u64, before: u64) -> int {
    let d = after - before;
    if d > i64::MAX {
        d - 0x1_0000_0000_0000_0000
    } else if d < i64::MIN {
        d + 0x1_0000_0000_0000_0000
    } else {
        d
    }
}

/// The outcome of a purge between two readings.
pub open spec fn purge_outcome(before: MemReading, after: MemReading, trimmed: u32) -> OutcomeView {
    OutcomeView {
        status: "done"@,
        freed_mb: if before.cache >= after.cache {
            ((before.cache - after.cache) / MB as int) as u64
        } else {
            0
        },
        avail_delta_mb: truncated_div(
            signed_difference(after.available, before.available),
            MB as int,
        ) as i64,
        cache_before_mb: before.cache / MB,
        cache_after_mb: after.cache / MB,
        trimmed_processes: trimmed,
        error: None,
    }
}

/// Computes the outcome of a purge between two readings.
pub fn outcome_of(before: MemReading, after: MemReading, trimmed: u32) -> (o: ClearRamOutcome)
    ensures
        o@ == purge_outcome(before, after, trimmed),
{
    let mut delta: i128 = after.available as i128 - before.available as i128;
    if delta > i64::MAX as i128 {
        delta = delta - 0x1_0000_0000_0000_0000;
    } else if delta < i64::MIN as i128 {
        delta = delta + 0x1_0000_0000_0000_0000;
    }
    let avail_delta_mb: i64 = if delta >= 0 {
        (delta / MB as i128) as i64
    } else {
        (-((-delta) / MB as i128)) as i64
    };
    ClearRamOutcome {
        status: "done".to_owned(),
        freed_mb: before.cache.saturating_sub(after.cache) / MB,
        avail_delta_mb,
        cache_before_mb: before.cache / MB,
        cache_after_mb: after.cache / MB,
        trimmed_processes: trimmed,
        error: None,
    }
}

// ---------------------------------------------------------------- the purge

/// What a purge remembers between its steps.
#[derive(Clone, Copy, Debug, PartialEq, Eq, Structural)]
pub struct ClearRun {
    /// The reading before the purge.
    pub before: MemReading,
    /// How many working sets were trimmed.
    pub trimmed: u32,
}

/// What happened during a purge.
#[derive(Debug)]
pub enum ClearEvent {
    /// Memory was read for the first time.
    ReadBefore(Result<MemReading, String>),
    /// The privilege to purge was enabled, or could not be.
    ProfilePrivilege(Result<(), String>),
    /// The privilege to open other processes was enabled, or could not be.
    DebugPrivilege(Result<(), String>),
    /// So many working sets were trimmed.
    Trimmed(u32),
    /// Modified pages were written out, or could not be.
    Flushed(Result<(), String>),
    /// The standby list was purged, or could not be.
    Purged(Result<(), String>),
    /// Memory was read for the second time.
    ReadAfter(Result<MemReading, String>),
}

/// What to do next.
#[derive(Debug)]
pub enum ClearAction {
    EnableProfilePrivilege,
    EnableDebugPrivilege,
    TrimWorkingSets,
    FlushModifiedList,
    PurgeStandbyList,
    ReadMemory,
    Finish(Result<ClearRamOutcome, String>),
}

/// The value of a `ClearAction`.
#[verifier::ext_equal]
pub enum ClearActionView {
    EnableProfilePrivilege,
    EnableDebugPrivilege,
    TrimWorkingSets,
    FlushModifiedList,
    PurgeStandbyList,
    ReadMemory,
    Finish(Result<OutcomeView, Seq<char>>),
}

impl View for ClearAction {
    type V = ClearActionView;

    open spec fn view(&self) -> ClearActionView {
        match self {
            ClearAction::EnableProfilePrivilege => ClearActionView::EnableProfilePrivilege,
            ClearAction::EnableDebugPrivilege => ClearActionView::EnableDebugPrivilege,
            ClearAction::TrimWorkingSets => ClearActionView::TrimWorkingSets,
            ClearAction::FlushModifiedList => ClearActionView::FlushModifiedList,
            ClearAction::PurgeStandbyList => ClearActionView::PurgeStandbyList,
            ClearAction::ReadMemory => ClearActionView::ReadMemory,
            ClearAction::Finish(r) => ClearActionView::Finish(result_view(*r)),
        }
    }
}

/// The next step of a purge. Working sets are trimmed first, then modified pages are written out,
/// then the standby list is purged: each step moves pages to where the next one finds them. The
/// privilege to purge and the purge itself are needed; the other privilege and the flush are not.
pub open spec fn clear_next(run: ClearRun, event: ClearEvent) -> ClearActionView {
    match event {
        ClearEvent::ReadBefore(Ok(_)) => ClearActionView::EnableProfilePrivilege,
        ClearEvent::ReadBefore(Err(e)) => ClearActionView::Finish(Err(e@)),
        ClearEvent::ProfilePrivilege(Ok(_)) => ClearActionView::EnableDebugPrivilege,
        ClearEvent::ProfilePrivilege(Err(e)) => ClearActionView::Finish(
            Err("SeProfileSingleProcessPrivilege: "@ + e@ + " (needs an elevated token)"@),
        ),
        ClearEvent::DebugPrivilege(_) => ClearActionView::TrimWorkingSets,
        ClearEvent::Trimmed(_) => ClearActionView::FlushModifiedList,
        ClearEvent::Flushed(_) => ClearActionView::PurgeStandbyList,
        ClearEvent::Purged(Ok(_)) => ClearActionView::ReadMemory,
        ClearEvent::Purged(Err(e)) => ClearActionView::Finish(Err(e@)),
        ClearEvent::ReadAfter(Ok(after)) => ClearActionView::Finish(
            Ok(purge_outcome(run.before, after, run.trimmed)),
        ),
        ClearEvent::ReadAfter(Err(e)) => ClearActionView::Finish(Err(e@)),
    }
}

/// What a purge remembers after an event.
pub open spec fn run_after(run: ClearRun, event: ClearEvent) -> ClearRun {
    match event {
        ClearEvent::ReadBefore(Ok(before)) => ClearRun { before, ..run },
        ClearEvent::Trimmed(trimmed) => ClearRun { trimmed, ..run },
        _ => run,
    }
}

impl ClearRun {
    /// A purge that has not begun. Its first step is to read memory.
    pub fn new() -> (run: ClearRun)
        ensures
            run.before.cache == 0,
            run.before.available == 0,
            run.trimmed == 0,
    {
        ClearRun { before: MemReading { cache: 0, available: 0 }, trimmed: 0 }
    }
}

/// One step of a purge.
pub fn perform_clear(run: &mut ClearRun, event: ClearEvent) -> (a: ClearAction)
    ensures
        a@ == clear_next(*old(run), event),
        *final(run) == run_after(*old(run), event),
{
    match event {
        ClearEvent::ReadBefore(Ok(before)) => {
            run.before = before;
            ClearAction::EnableProfilePrivilege
        },
        ClearEvent::ReadBefore(Err(e)) => ClearAction::Finish(Err(e)),
        ClearEvent::ProfilePrivilege(Ok(_)) => ClearAction::EnableDebugPrivilege,
        ClearEvent::ProfilePrivilege(Err(e)) => {
            let mut s = "SeProfileSingleProcessPrivilege: ".to_owned();
            s.append(e.as_str());
            s.append(" (needs an elevated token)");
            ClearAction::Finish(Err(s))
        },
        ClearEvent::DebugPrivilege(_) => ClearAction::TrimWorkingSets,
        ClearEvent::Trimmed(trimmed) => {
            run.trimmed = trimmed;
            ClearAction::FlushModifiedList
        },
        ClearEvent::Flushed(_) => ClearAction::PurgeStandbyList,
        ClearEvent::Purged(Ok(_)) => ClearAction::ReadMemory,
        ClearEvent::Purged(Err(e)) => ClearAction::Finish(Err(e)),
        ClearEvent::ReadAfter(Ok(after)) => ClearAction::Finish(
            Ok(outcome_of(run.before, after, run.trimmed)),
        ),
        ClearEvent::ReadAfter(Err(e)) => ClearAction::Finish(Err(e)),
    }
}

// ---------------------------------------------------------------- the helper's side

/// `i` is the first argument that asks for the purge.
pub open spec fn is_flag_at(args: Seq<String>, i: int) -> bool {
    &&& 0 <= i < args.len()
    &&& args[i]@ == "--clear-ram"@
    &&& forall|j: int| 0 <= j < i ==> (#[trigger] args[j])@ != "--clear-ram"@
}

/// Finds the argument that names the result file: the one after the first `--clear-ram`. Without
/// it the default file is meant.
pub fn result_path_arg(args: &Vec<String>) -> (r: Option<usize>)
    ensures
        match r {
            Some(i) => i >= 1 && is_flag_at(args@, i - 1) && i < args.len(),
            None => forall|i: int| #[trigger] is_flag_at(args@, i) ==> i + 1 >= args.len(),
        },
{
    let mut i: usize = 0;
    while i < args.len()
        invariant
            i <= args.len(),
            forall|j: int| 0 <= j < i ==> (#[trigger] args@[j])@ != "--clear-ram"@,
        decreases args.len() - i,
    {
        if same_text(args[i].as_str(), "--clear-ram") {
            assert(is_flag_at(args@, i as int));
            assert forall|j: int| #[trigger] is_flag_at(args@, j) implies j == i by {
                if j < i {
                    assert(args@[j]@ != "--clear-ram"@);
                }
            }
            return if i + 1 < args.len() {
                Some(i + 1)
            } else {
                None
            };
        }
        i += 1;
    }
    None
}

/// What the helper writes for the result of its purge, and the code that it ends with.
pub open spec fn helper_report(r: Result<OutcomeView, Seq<char>>) -> (OutcomeView, i32) {
    match r {
        Ok(o) => (o, 0),
        Err(e) => (bare_outcome("error"@, Some(e)), 1),
    }
}

/// Turns the result of the helper's purge into what it writes and the code that it ends with.
pub fn run_helper(cleared: Result<ClearRamOutcome, String>) -> (r: (ClearRamOutcome, i32))
    ensures
        (r.0@, r.1) == helper_report(result_view(cleared)),
{
    match cleared {
        Ok(outcome) => (outcome, 0),
        Err(e) => {
            let mut outcome = ClearRamOutcome::default();
            outcome.status = "error".to_owned();
            outcome.error = Some(e);
            (outcome, 1)
        },
    }
}

/// The code that the helper ends with: 2 where its result could not be written.
pub fn helper_exit_code(code: i32, written: bool) -> (r: i32)
    ensures
        r == (if written {
            code
        } else {
            2
        }),
{
    if written {
        code
    } else {
        2
    }
}

// ---------------------------------------------------------------- the resident side

/// The arguments that the helper is started with.
pub open spec fn helper_params_text(path: Seq<char>) -> Seq<char> {
    "--clear-ram \""@ + path + "\""@
}

/// Writes the arguments that the helper is started with.
pub fn helper_params(path: &str) -> (params: String)
    ensures
        params@ == helper_params_text(path@),
{
    let mut params = "--clear-ram \"".to_owned();
    params.append(path);
    params.append("\"");
    params
}

/// How starting the helper went.
#[derive(Debug)]
pub enum Launch {
    /// The user declined.
    Declined,
    Failed(String),
    /// The helper was started; whether there is a handle to wait on.
    Started { has_handle: bool },
}

/// What happened while the helper was being used.
#[derive(Debug)]
pub enum HelperEvent {
    /// The path of this executable was found, or could not be.
    ExeFound(Result<(), String>),
    Launched(Launch),
    /// Waiting for the helper ended; whether because the helper did.
    Waited { ended: bool },
    /// The result file was read, or could not be.
    FileRead { code: u32, read: Result<(), String> },
    /// The result file was parsed, or could not be.
    Parsed { code: u32, outcome: Result<ClearRamOutcome, String> },
}

/// What to do next.
#[derive(Debug)]
pub enum HelperAction {
    /// Remove a result file that may be left over, and start the helper.
    LaunchHelper,
    WaitForHelper,
    /// Read the result file.
    ReadFile,
    /// Remove the result file and parse what was read.
    ParseFile,
    Finish(Result<ClearRamOutcome, String>),
}

/// The value of a `HelperAction`.
#[verifier::ext_equal]
pub enum HelperActionView {
    LaunchHelper,
    WaitForHelper,
    ReadFile,
    ParseFile,
    Finish(Result<OutcomeView, Seq<char>>),
}

impl View for HelperAction {
    type V = HelperActionView;

    open spec fn view(&self) -> HelperActionView {
        match self {
            HelperAction::LaunchHelper => HelperActionView::LaunchHelper,
            HelperAction::WaitForHelper => HelperActionView::WaitForHelper,
            HelperAction::ReadFile => HelperActionView::ReadFile,
            HelperAction::ParseFile => HelperActionView::ParseFile,
            HelperAction::Finish(r) => HelperActionView::Finish(result_view(*r)),
        }
    }
}

/// The result for an outcome that the helper wrote: an error where the helper says so, and where
/// the status is none that an outcome has.
pub open spec fn judged(code: u32, o: OutcomeView) -> Result<OutcomeView, Seq<char>> {
    if o.status == "error"@ {
        match o.error {
            Some(e) => Err(e),
            None => Err("helper failed (exit code "@ + text::decimal(code as int) + ")"@),
        }
    } else if o.status == "done"@ || o.status == "cancelled"@ {
        Ok(o)
    } else {
        Err("bad helper result file: unexpected status \""@ + o.status + "\""@)
    }
}

/// What follows from an event. A user who declines is no failure.
pub open spec fn helper_next(event: HelperEvent) -> HelperActionView {
    match event {
        HelperEvent::ExeFound(Ok(_)) => HelperActionView::LaunchHelper,
        HelperEvent::ExeFound(Err(e)) => HelperActionView::Finish(
            Err("current_exe failed: "@ + e@),
        ),
        HelperEvent::Launched(Launch::Declined) => HelperActionView::Finish(
            Ok(bare_outcome("cancelled"@, None)),
        ),
        HelperEvent::Launched(Launch::Failed(e)) => HelperActionView::Finish(
            Err("elevated relaunch failed: "@ + e@),
        ),
        HelperEvent::Launched(Launch::Started { has_handle }) => if has_handle {
            HelperActionView::WaitForHelper
        } else {
            HelperActionView::Finish(
                Err("elevated helper started but returned no process handle"@),
            )
        },
        HelperEvent::Waited { ended } => if ended {
            HelperActionView::ReadFile
        } else {
            HelperActionView::Finish(Err("ram-clear helper timed out after 60s"@))
        },
        HelperEvent::FileRead { code, read: Ok(_) } => HelperActionView::ParseFile,
        HelperEvent::FileRead { code, read: Err(e) } => HelperActionView::Finish(
            Err(
                "helper exited (code "@ + text::decimal(code as int)
                    + ") but left no result file: "@ + e@,
            ),
        ),
        HelperEvent::Parsed { code, outcome: Ok(o) } => HelperActionView::Finish(judged(code, o@)),
        HelperEvent::Parsed { code, outcome: Err(e) } => HelperActionView::Finish(
            Err("bad helper result file: "@ + e@),
        ),
    }
}

fn judge(code: u32, outcome: ClearRamOutcome) -> (r: Result<ClearRamOutcome, String>)
    ensures
        result_view(r) == judged(code, outcome@),
{
    if same_text(outcome.status.as_str(), "error") {
        match outcome.error {
            Some(e) => Err(e),
            None => {
                let mut s = "helper failed (exit code ".to_owned();
                text::push_decimal(&mut s, code as i128);
                s.append(")");
                Err(s)
            },
        }
    } else if same_text(outcome.status.as_str(), "done") || same_text(
        outcome.status.as_str(),
        "cancelled",
    ) {
        Ok(outcome)
    } else {
        let mut s = "bad helper result file: unexpected status \"".to_owned();
        s.append(outcome.status.as_str());
        s.append("\"");
        Err(s)
    }
}

/// One step of using the helper. The first event is `HelperEvent::ExeFound`.
pub fn run_elevated_helper(event: HelperEvent) -> (a: HelperAction)
    ensures
        a@ == helper_next(event),
{
    match event {
        HelperEvent::ExeFound(found) => match found {
            Ok(_) => HelperAction::LaunchHelper,
            Err(e) => HelperAction::Finish(Err(join("current_exe failed: ", e.as_str()))),
        },
        HelperEvent::Launched(launch) => match launch {
            Launch::Declined => {
                let mut outcome = ClearRamOutcome::default();
                outcome.status = "cancelled".to_owned();
                HelperAction::Finish(Ok(outcome))
            },
            Launch::Failed(e) => HelperAction::Finish(
                Err(join("elevated relaunch failed: ", e.as_str())),
            ),
            Launch::Started { has_handle } => if has_handle {
                HelperAction::WaitForHelper
            } else {
                HelperAction::Finish(
                    Err("elevated helper started but returned no process handle".to_owned()),
                )
            },
        },
        HelperEvent::Waited { ended } => if ended {
            HelperAction::ReadFile
        } else {
            HelperAction::Finish(Err("ram-clear helper timed out after 60s".to_owned()))
        },
        HelperEvent::FileRead { code, read } => match read {
            Ok(_) => HelperAction::ParseFile,
            Err(e) => {
                let mut s = "helper exited (code ".to_owned();
                text::push_decimal(&mut s, code as i128);
                s.append(") but left no result file: ");
                s.append(e.as_str());
                HelperAction::Finish(Err(s))
            },
        },
        HelperEvent::Parsed { code, outcome } => match outcome {
            Ok(o) => HelperAction::Finish(judge(code, o)),
            Err(e) => HelperAction::Finish(Err(join("bad helper result file: ", e.as_str()))),
        },
    }
}

// ---------------------------------------------------------------- laws

/// The result that a purge gives from what its steps gave.
pub open spec fn whole_clear(
    before: Result<MemReading, String>,
    profile: Result<(), String>,
    trimmed: u32,
    purged: Result<(), String>,
    after: Result<MemReading, String>,
) -> Result<OutcomeView, Seq<char>> {
    match (before, profile, purged, after) {
        (Err(e), _, _, _) => Err(e@),
        (_, Err(e), _, _) => Err(
            "SeProfileSingleProcessPrivilege: "@ + e@ + " (needs an elevated token)"@,
        ),
        (_, _, Err(e), _) => Err(e@),
        (_, _, _, Err(e)) => Err(e@),
        (Ok(b), Ok(_), Ok(_), Ok(a)) => Ok(purge_outcome(b, a, trimmed)),
    }
}

/// A purge whose steps are taken in turn ends with the first error of a needed step, or with the
/// outcome between the two readings. Neither the privilege to open other processes nor the flush
/// has a say in it.
pub proof fn purge_ends_with_its_result(
    start: ClearRun,
    before: Result<MemReading, String>,
    profile: Result<(), String>,
    debug: Result<(), String>,
    trimmed: u32,
    flushed: Result<(), String>,
    purged: Result<(), String>,
    after: Result<MemReading, String>,
)
    ensures
        ({
            let result = ClearActionView::Finish(
                whole_clear(before, profile, trimmed, purged, after),
            );
            let run1 = run_after(start, ClearEvent::ReadBefore(before));
            let run2 = run_after(run1, ClearEvent::ProfilePrivilege(profile));
            let run3 = run_after(run2, ClearEvent::DebugPrivilege(debug));
            let run4 = run_after(run3, ClearEvent::Trimmed(trimmed));
            let run5 = run_after(run4, ClearEvent::Flushed(flushed));
            let run6 = run_after(run5, ClearEvent::Purged(purged));
            let a1 = clear_next(start, ClearEvent::ReadBefore(before));
            let a2 = clear_next(run1, ClearEvent::ProfilePrivilege(profile));
            let a3 = clear_next(run2, ClearEvent::DebugPrivilege(debug));
            let a4 = clear_next(run3, ClearEvent::Trimmed(trimmed));
            let a5 = clear_next(run4, ClearEvent::Flushed(flushed));
            let a6 = clear_next(run5, ClearEvent::Purged(purged));
            let a7 = clear_next(run6, ClearEvent::ReadAfter(after));
            if before is Err {
                a1 == result
            } else if profile is Err {
                a1 is EnableProfilePrivilege && a2 == result
            } else {
                &&& a1 is EnableProfilePrivilege
                &&& a2 is EnableDebugPrivilege
                &&& a3 is TrimWorkingSets
                &&& a4 is FlushModifiedList
                &&& a5 is PurgeStandbyList
                &&& if purged is Err {
                    a6 == result
                } else {
                    a6 is ReadMemory && a7 == result
                }
            }
        }),
{
}

/// What the helper's purge gave is what the resident instance ends up with, whichever code the
/// helper ended with. (A purge gives no outcome with another status: see `purges_are_done`.)
pub proof fn helper_result_comes_through(r: Result<OutcomeView, Seq<char>>, code: u32)
    requires
        r matches Ok(o) ==> o.status == "done"@ || o.status == "cancelled"@,
    ensures
        judged(code, helper_report(r).0) == r,
{
    lemma_statuses_differ();
}

/// Whatever happens, a purge in this process that gives an outcome gives the status "done".
pub proof fn purges_are_done(run: ClearRun, event: ClearEvent)
    ensures
        clear_next(run, event) matches ClearActionView::Finish(Ok(o)) ==> o.status == "done"@,
{
}

proof fn lemma_statuses_differ()
    ensures
        "done"@ != "error"@,
        "cancelled"@ != "error"@,
{
    reveal_strlit("done");
    reveal_strlit("error");
    reveal_strlit("cancelled");
    assert("done"@.len() == 4);
    assert("error"@.len() == 5);
    assert("cancelled"@.len() == 9);
}

/// On either route the user interface gets the status "done" or "cancelled" and no other:
/// whatever else the helper wrote ends as an error.
pub proof fn outcomes_are_done_or_cancelled(run: ClearRun, step: ClearEvent, event: HelperEvent)
    ensures
        clear_next(run, step) matches ClearActionView::Finish(Ok(o)) ==> o.status == "done"@
            || o.status == "cancelled"@,
        helper_next(event) matches HelperActionView::Finish(Ok(o)) ==> o.status == "done"@
            || o.status == "cancelled"@,
        "done"@ != "error"@,
        "cancelled"@ != "error"@,
{
    lemma_statuses_differ();
}

/// The freed memory is never more than there was cache, and none where the cache did not shrink.
/// Where it shrank, the rounded numbers differ from the freed number by at most one.
pub proof fn freed_memory_fits_the_readings(before: MemReading, after: MemReading, trimmed: u32)
    ensures
        ({
            let o = purge_outcome(before, after, trimmed);
            &&& o.freed_mb <= o.cache_before_mb
            &&& after.cache >= before.cache ==> o.freed_mb == 0
            &&& after.cache <= before.cache ==> o.cache_before_mb - o.cache_after_mb - 1
                <= o.freed_mb <= o.cache_before_mb - o.cache_after_mb
        }),
{
}

/// For readings that a machine can have, the change of the available memory is the plain
/// difference, and swapping the readings turns its sign around.
pub proof fn available_change_is_the_difference(before: MemReading, after: MemReading, trimmed: u32)
    requires
        before.available <= i64::MAX,
        after.available <= i64::MAX,
    ensures
        purge_outcome(before, after, trimmed).avail_delta_mb == truncated_div(
            after.available - before.available,
            MB as int,
        ),
        purge_outcome(before, after, trimmed).avail_delta_mb == -purge_outcome(
            after,
            before,
            trimmed,
        ).avail_delta_mb,
{
}

/// The numbers of an outcome are whole megabytes, rounded down: the cache before and after, for
/// every reading; and what was freed, which is nothing where the cache grew. An outcome is done,
/// has no error and counts the trimmed processes.
pub proof fn outcomes_count_whole_megabytes(before: MemReading, after: MemReading, trimmed: u32)
    ensures
        ({
            let o = purge_outcome(before, after, trimmed);
            &&& o.cache_before_mb * 0x10_0000 <= before.cache < (o.cache_before_mb + 1) * 0x10_0000
            &&& o.cache_after_mb * 0x10_0000 <= after.cache < (o.cache_after_mb + 1) * 0x10_0000
            &&& before.cache >= after.cache ==> o.freed_mb * 0x10_0000 <= before.cache - after.cache
                < (o.freed_mb + 1) * 0x10_0000
            &&& before.cache <= after.cache ==> o.freed_mb == 0
            &&& o.trimmed_processes == trimmed
            &&& o.status == "done"@
            &&& o.error is None
        }),
{
}

/// The change of the available memory is the difference of the readings, as the signed word that
/// has it, in whole megabytes, rounded towards zero.
pub proof fn available_change_in_whole_megabytes(
    before: MemReading,
    after: MemReading,
    trimmed: u32,
)
    ensures
        ({
            let q = purge_outcome(before, after, trimmed).avail_delta_mb;
            let d = signed_difference(after.available, before.available);
            &&& i64::MIN <= d <= i64::MAX
            &&& (d - (after.available - before.available)) % 0x1_0000_0000_0000_0000 == 0
            &&& i64::MIN <= after.available - before.available <= i64::MAX ==> d == after.available
                - before.available
            &&& d >= 0 ==> q * 0x10_0000 <= d < (q + 1) * 0x10_0000
            &&& d <= 0 ==> (q - 1) * 0x10_0000 < d <= q * 0x10_0000
        }),
{
}

/// A sweep goes through the listed processes in order: each word of four bytes that was filled in
/// adds its process, unless that is the idle process. Bytes that make no whole word, and words
/// beyond the room, add none.
pub proof fn sweeps_go_through_the_listed_processes(pids: Seq<u32>, needed_bytes: u32, n: int)
    requires
        0 <= n,
        4 * n + 4 <= u32::MAX,
    ensures
        sweep_targets(false, pids, needed_bytes).len() == 0,
        needed_bytes < 4 ==> sweep_targets(true, pids, needed_bytes).len() == 0,
        4 * n <= needed_bytes < 4 * n + 4 ==> sweep_targets(true, pids, needed_bytes)
            == sweep_targets(true, pids, (4 * n) as u32),
        n < pids.len() && pids[n] != 0 ==> sweep_targets(true, pids, (4 * n + 4) as u32)
            == sweep_targets(true, pids, (4 * n) as u32).push(pids[n]),
        n < pids.len() && pids[n] == 0 ==> sweep_targets(true, pids, (4 * n + 4) as u32)
            == sweep_targets(true, pids, (4 * n) as u32),
        n >= pids.len() ==> sweep_targets(true, pids, (4 * n + 4) as u32) == sweep_targets(
            true,
            pids,
            (4 * n) as u32,
        ),
{
    reveal(Seq::filter);
    let wants = |p: u32| p != 0;
    assert(((4 * n) as u32) / 4 == n);
    assert(((4 * n + 4) as u32) / 4 == n + 1);
    if needed_bytes < 4 {
        assert(pids.take(0).filter(wants) =~= Seq::empty());
    }
    if n < pids.len() {
        assert(pids.take(n + 1).drop_last() =~= pids.take(n));
        assert(pids.take(n + 1).last() == pids[n]);
        assert(filled_pids(pids.len(), (4 * n + 4) as u32) == n + 1);
        assert(filled_pids(pids.len(), (4 * n) as u32) == n);
    }
}

/// Every process that accepted counts once, and no other does.
pub proof fn acceptances_are_counted(results: Seq<bool>, r: bool)
    ensures
        accepted_count(Seq::empty()) == 0,
        r ==> accepted_count(results.push(r)) == accepted_count(results) + 1,
        !r ==> accepted_count(results.push(r)) == accepted_count(results),
{
    assert(results.push(r).drop_last() =~= results);
}

/// A memory-list command succeeds with the status zero and no other. An error shows the command
/// and the bits of its status, or why there was no status.
pub proof fn memory_commands_are_judged_by_their_status(command: i32, status: i32, e: String)
    ensures
        nt_error(command, NtCall::Status(status)) is None <==> status == 0,
        0 <= status_bits(status) < 0x1_0000_0000,
        (status_bits(status) - status) % 0x1_0000_0000 == 0,
        status != 0 ==> {
            let line = nt_error(command, NtCall::Status(status))->0;
            &&& text::shows(
                line,
                "NtSetSystemInformation(SystemMemoryListInformation, "@ + text::decimal(
                    command as int,
                ),
            )
            &&& text::shows(
                line,
                ") -> NTSTATUS 0x"@ + text::zero_padded(
                    text::numeral(status_bits(status), 16, true),
                    8,
                ),
            )
        },
        nt_error(command, NtCall::NoFunction) is Some,
        ends_with(nt_error(command, NtCall::NoModule(e)), e@),
{
    let c = text::decimal(command as int);
    let bits = text::zero_padded(text::numeral(status_bits(status), 16, true), 8);
    let none = Seq::<char>::empty();
    let name = "NtSetSystemInformation(SystemMemoryListInformation, "@;
    text::lemma_appended(none, name, c);
    text::lemma_appended(none + name + c, ") -> NTSTATUS 0x"@, bits);
    assert(none + name =~= name);
    lemma_ends_with("ntdll.dll: "@, e@);
}

/// There is a text, and it ends with `e`.
pub open spec fn ends_with(t: Option<Seq<char>>, e: Seq<char>) -> bool {
    &&& t is Some
    &&& t->0.len() >= e.len()
    &&& t->0.skip(t->0.len() - e.len()) == e
}

proof fn lemma_ends_with(head: Seq<char>, e: Seq<char>)
    ensures
        ends_with(Some(head + e), e),
{
    assert((head + e).skip((head + e).len() - e.len()) =~= e);
}

/// A privilege is enabled only where the token was opened, the privilege found and the token
/// adjusted in full; each failure on the way ends the attempt and is reported with its reason.
pub proof fn privileges_are_enabled_in_full(event: PrivilegeEvent)
    ensures
        ({
            let a = privilege_next(event);
            &&& event matches PrivilegeEvent::TokenOpened(Ok(_)) ==> a is LookUp
            &&& event matches PrivilegeEvent::TokenOpened(Err(e)) ==> a is Finish && ends_with(
                a->Finish_0,
                e@,
            )
            &&& event matches PrivilegeEvent::LookedUp(Ok(_)) ==> a is Adjust
            &&& event matches PrivilegeEvent::LookedUp(Err(e)) ==> a is Finish && ends_with(
                a->Finish_0,
                e@,
            )
            &&& event matches PrivilegeEvent::Adjusted { result, not_all_assigned } ==> {
                &&& a is Finish
                &&& a->Finish_0 is None <==> result is Ok && !not_all_assigned
                &&& result is Err ==> ends_with(a->Finish_0, result->Err_0@)
            }
        }),
{
    match event {
        PrivilegeEvent::TokenOpened(Err(e)) => lemma_ends_with("OpenProcessToken failed: "@, e@),
        PrivilegeEvent::LookedUp(Err(e)) => lemma_ends_with("LookupPrivilegeValue failed: "@, e@),
        PrivilegeEvent::Adjusted { result: Err(e), not_all_assigned } => lemma_ends_with(
            "AdjustTokenPrivileges failed: "@,
            e@,
        ),
        _ => {},
    }
}

/// A purge remembers its first reading and the number of trimmed processes through every other
/// step, and its outcome is between that reading and the last.
pub proof fn purges_remember_their_reading(run: ClearRun, event: ClearEvent)
    ensures
        event matches ClearEvent::ReadBefore(Ok(m)) ==> run_after(run, event).before == m,
        !(event matches ClearEvent::ReadBefore(Ok(_))) ==> run_after(run, event).before
            == run.before,
        event matches ClearEvent::Trimmed(n) ==> run_after(run, event).trimmed == n,
        !(event is Trimmed) ==> run_after(run, event).trimmed == run.trimmed,
        event matches ClearEvent::ReadAfter(Ok(m)) ==> {
            let a = clear_next(run, event);
            &&& a is Finish
            &&& a->Finish_0 is Ok
            &&& a->Finish_0->Ok_0.cache_before_mb * 0x10_0000 <= run.before.cache
            &&& run.before.cache < (a->Finish_0->Ok_0.cache_before_mb + 1) * 0x10_0000
            &&& a->Finish_0->Ok_0.cache_after_mb * 0x10_0000 <= m.cache
            &&& m.cache < (a->Finish_0->Ok_0.cache_after_mb + 1) * 0x10_0000
            &&& a->Finish_0->Ok_0.trimmed_processes == run.trimmed
        },
{
}

/// A purge goes on whatever became of the steps that it can do without, and ends with the error
/// of one that it needs.
pub proof fn purges_need_their_privilege_and_their_purge(run: ClearRun, event: ClearEvent)
    ensures
        ({
            let a = clear_next(run, event);
            &&& event matches ClearEvent::ReadBefore(r) ==> (r is Ok ==> a is EnableProfilePrivilege)
            &&& event matches ClearEvent::ReadBefore(Err(e)) ==> a == ClearActionView::Finish(
                Err(e@),
            )
            &&& event matches ClearEvent::ProfilePrivilege(r) ==> (r is Ok ==> a
                is EnableDebugPrivilege)
            &&& event matches ClearEvent::ProfilePrivilege(Err(e)) ==> a is Finish && a->Finish_0
                is Err && text::shows(a->Finish_0->Err_0, "Privilege: "@ + e@)
            &&& event is DebugPrivilege ==> a is TrimWorkingSets
            &&& event is Trimmed ==> a is FlushModifiedList
            &&& event is Flushed ==> a is PurgeStandbyList
            &&& event matches ClearEvent::Purged(r) ==> (r is Ok ==> a is ReadMemory)
            &&& event matches ClearEvent::Purged(Err(e)) ==> a == ClearActionView::Finish(Err(e@))
            &&& event matches ClearEvent::ReadAfter(Err(e)) ==> a == ClearActionView::Finish(
                Err(e@),
            )
        }),
{
    if let ClearEvent::ProfilePrivilege(Err(e)) = event {
        let head = "SeProfileSingleProcess"@;
        assert("SeProfileSingleProcessPrivilege: "@ == head + "Privilege: "@) by {
            reveal_strlit("SeProfileSingleProcessPrivilege: ");
            reveal_strlit("SeProfileSingleProcess");
            reveal_strlit("Privilege: ");
            assert("SeProfileSingleProcessPrivilege: "@ =~= head + "Privilege: "@);
        }
        let l1 = head + "Privilege: "@ + e@;
        text::lemma_appended(head, "Privilege: "@, e@);
        text::lemma_appended(l1, " (needs an elevated token)"@, Seq::empty());
        assert(l1 + " (needs an elevated token)"@ =~= l1 + " (needs an elevated token)"@ + Seq::<
            char,
        >::empty());
    }
}

/// The flag that counts is the first one: where an argument asks for the purge there is a first,
/// and none before it does.
pub proof fn the_first_flag_counts(args: Seq<String>, i: int)
    requires
        0 <= i < args.len(),
        args[i]@ == "--clear-ram"@,
    ensures
        exists|f: int| #[trigger] is_flag_at(args, f) && f <= i,
        forall|f: int| #[trigger] is_flag_at(args, f) ==> f <= i && args[f]@ == "--clear-ram"@,
    decreases i,
{
    if exists|j: int| 0 <= j < i && (#[trigger] args[j])@ == "--clear-ram"@ {
        let j = choose|j: int| 0 <= j < i && (#[trigger] args[j])@ == "--clear-ram"@;
        the_first_flag_counts(args, j);
        let f = choose|f: int| #[trigger] is_flag_at(args, f) && f <= j;
        assert(is_flag_at(args, f) && f <= i);
    } else {
        assert(is_flag_at(args, i));
    }
}

/// The helper writes the outcome as it is and ends with zero, or writes the error, with nothing
/// counted, and ends with one.
pub proof fn helpers_report_their_result(o: OutcomeView, e: Seq<char>)
    ensures
        helper_report(Ok(o)).0 == o,
        helper_report(Ok(o)).1 == 0,
        helper_report(Err(e)).1 == 1,
        helper_report(Err(e)).0.status == "error"@,
        helper_report(Err(e)).0.error == Some(e),
        counts_nothing(helper_report(Err(e)).0),
{
}

/// An outcome in which nothing was freed, counted or trimmed.
pub open spec fn counts_nothing(o: OutcomeView) -> bool {
    &&& o.freed_mb == 0
    &&& o.avail_delta_mb == 0
    &&& o.cache_before_mb == 0
    &&& o.cache_after_mb == 0
    &&& o.trimmed_processes == 0
}

/// The helper is started with the flag and the path of the result file, in quotation marks.
pub proof fn helpers_are_told_their_file(path: Seq<char>)
    ensures
        ({
            let params = helper_params_text(path);
            &&& params.len() == path.len() + 14
            &&& params.take(11) == "--clear-ram"@
            &&& params[11] == ' '
            &&& params[12] == '"'
            &&& params.subrange(13, 13 + path.len() as int) == path
            &&& params[13 + path.len() as int] == '"'
        }),
{
    reveal_strlit("--clear-ram \"");
    reveal_strlit("--clear-ram");
    reveal_strlit("\"");
    let params = helper_params_text(path);
    assert(params.take(11) =~= "--clear-ram"@);
    assert(params.subrange(13, 13 + path.len() as int) =~= path);
}

/// Using the helper goes on after each success. A user who declines is answered with a cancelled
/// outcome that counts nothing; every failure ends with its reason.
pub proof fn helpers_are_started_waited_for_and_read(event: HelperEvent)
    ensures
        ({
            let a = helper_next(event);
            &&& event matches HelperEvent::ExeFound(r) ==> (r is Ok ==> a is LaunchHelper)
            &&& event matches HelperEvent::ExeFound(Err(e)) ==> fails_with(a, e@)
            &&& event matches HelperEvent::Launched(Launch::Declined) ==> {
                &&& a is Finish
                &&& a->Finish_0 is Ok
                &&& a->Finish_0->Ok_0.status == "cancelled"@
                &&& a->Finish_0->Ok_0.error is None
                &&& counts_nothing(a->Finish_0->Ok_0)
            }
            &&& event matches HelperEvent::Launched(Launch::Failed(e)) ==> fails_with(a, e@)
            &&& event matches HelperEvent::Launched(Launch::Started { has_handle }) ==> {
                &&& has_handle ==> a is WaitForHelper
                &&& !has_handle ==> a is Finish && a->Finish_0 is Err
            }
            &&& event matches HelperEvent::Waited { ended } ==> {
                &&& ended ==> a is ReadFile
                &&& !ended ==> a is Finish && a->Finish_0 is Err
            }
            &&& event matches HelperEvent::FileRead { code, read } ==> {
                &&& read is Ok ==> a is ParseFile
                &&& read is Err ==> fails_with(a, read->Err_0@)
                &&& read is Err ==> text::shows(
                    a->Finish_0->Err_0,
                    "(code "@ + text::decimal(code as int),
                )
            }
            &&& event matches HelperEvent::Parsed { code, outcome } ==> {
                &&& a is Finish
                &&& outcome is Ok && outcome->Ok_0@.status == "done"@ ==> a->Finish_0 == Ok::<
                    OutcomeView,
                    Seq<char>,
                >(outcome->Ok_0@)
                &&& outcome is Ok && outcome->Ok_0@.status == "cancelled"@ ==> a->Finish_0 == Ok::<
                    OutcomeView,
                    Seq<char>,
                >(outcome->Ok_0@)
                &&& outcome is Ok && outcome->Ok_0@.status != "done"@ && outcome->Ok_0@.status
                    != "cancelled"@ ==> a->Finish_0 is Err
                &&& outcome is Err ==> fails_with(a, outcome->Err_0@)
            }
        }),
{
    lemma_statuses_differ();
    match event {
        HelperEvent::ExeFound(Err(e)) => lemma_ends_with("current_exe failed: "@, e@),
        HelperEvent::Launched(Launch::Failed(e)) => lemma_ends_with(
            "elevated relaunch failed: "@,
            e@,
        ),
        HelperEvent::FileRead { code, read: Err(e) } => {
            lemma_missing_file_text(code, e@);
        },
        HelperEvent::Parsed { code, outcome: Err(e) } => lemma_ends_with(
            "bad helper result file: "@,
            e@,
        ),
        _ => {},
    }
}

/// The helper could not be used, for the reason `e`.
pub open spec fn fails_with(a: HelperActionView, e: Seq<char>) -> bool {
    &&& a is Finish
    &&& a->Finish_0 is Err
    &&& ends_with(Some(a->Finish_0->Err_0), e)
}

proof fn lemma_missing_file_text(code: u32, e: Seq<char>)
    ensures
        ({
            let line = "helper exited (code "@ + text::decimal(code as int)
                + ") but left no result file: "@ + e;
            &&& ends_with(Some(line), e)
            &&& text::shows(line, "(code "@ + text::decimal(code as int))
        }),
{
    let n = text::decimal(code as int);
    let head = "helper exited "@;
    assert("helper exited (code "@ == head + "(code "@) by {
        reveal_strlit("helper exited (code ");
        reveal_strlit("helper exited ");
        reveal_strlit("(code ");
        assert("helper exited (code "@ =~= head + "(code "@);
    }
    let l1 = head + "(code "@ + n;
    text::lemma_appended(head, "(code "@, n);
    text::lemma_appended(l1, ") but left no result file: "@, e);
    lemma_ends_with(l1 + ") but left no result file: "@, e);
}

/// An error that the helper wrote is the error that it gave, or else shows the code that it ended
/// with; a status that no outcome has is shown.
pub proof fn helper_errors_are_passed_on(code: u32, o: OutcomeView)
    ensures
        o.status == "error"@ && o.error is Some ==> judged(code, o) == Err::<OutcomeView, Seq<char>>(
            o.error->0,
        ),
        o.status == "error"@ && o.error is None ==> judged(code, o) is Err && text::shows(
            judged(code, o)->Err_0,
            "exit code "@ + text::decimal(code as int),
        ),
        o.status == "done"@ || o.status == "cancelled"@ ==> judged(code, o) == Ok::<
            OutcomeView,
            Seq<char>,
        >(o),
        o.status != "error"@ && o.status != "done"@ && o.status != "cancelled"@ ==> judged(code, o)
            is Err && text::shows(judged(code, o)->Err_0, "\""@ + o.status),
{
    lemma_statuses_differ();
    let none = Seq::<char>::empty();
    let n = text::decimal(code as int);
    let head = "helper failed ("@;
    assert("helper failed (exit code "@ == head + "exit code "@) by {
        reveal_strlit("helper failed (exit code ");
        reveal_strlit("helper failed (");
        reveal_strlit("exit code ");
        assert("helper failed (exit code "@ =~= head + "exit code "@);
    }
    let l1 = head + "exit code "@ + n;
    text::lemma_appended(head, "exit code "@, n);
    text::lemma_appended(l1, ")"@, none);
    assert(l1 + ")"@ =~= l1 + ")"@ + none);
    let bad = "bad helper result file: unexpected status "@;
    assert("bad helper result file: unexpected status \""@ == bad + "\""@) by {
        reveal_strlit("bad helper result file: unexpected status \"");
        reveal_strlit("bad helper result file: unexpected status ");
        reveal_strlit("\"");
        assert("bad helper result file: unexpected status \""@ =~= bad + "\""@);
    }
    let m1 = bad + "\""@ + o.status;
    text::lemma_appended(bad, "\""@, o.status);
    text::lemma_appended(m1, "\""@, none);
    assert(m1 + "\""@ =~= m1 + "\""@ + none);
}

/// The value of an outcome has its fields.
pub proof fn outcomes_are_seen_as_they_are(o: ClearRamOutcome)
    ensures
        o@.status == o.status@,
        o@.freed_mb == o.freed_mb,
        o@.avail_delta_mb == o.avail_delta_mb,
        o@.cache_before_mb == o.cache_before_mb,
        o@.cache_after_mb == o.cache_after_mb,
        o@.trimmed_processes == o.trimmed_processes,
        o@.error is Some <==> o.error is Some,
        o.error is Some ==> o@.error->0 == o.error->0@,
{
}

/// Results are seen with what they carry: a success as one, and a failure with its text.
pub proof fn results_are_seen_as_they_are(
    r: Result<ClearRamOutcome, String>,
    step: Result<(), String>,
    reading: Result<MemReading, String>,
)
    ensures
        r matches Ok(o) ==> result_view(r) is Ok && result_view(r)->Ok_0 == o@,
        r matches Err(e) ==> result_view(r) is Err && result_view(r)->Err_0 == e@,
        step_error(step) is None <==> step is Ok,
        step matches Err(e) ==> step_error(step)->0 == e@,
        reading matches Ok(m) ==> reading_view(reading) == Ok::<MemReading, Seq<char>>(m),
        reading matches Err(e) ==> reading_view(reading) == Err::<MemReading, Seq<char>>(e@),
{
}

/// Steps are seen as what they ask for; one that ends the work is seen with its result.
pub proof fn steps_are_seen_as_they_are(p: PrivilegeAction, c: ClearAction, h: HelperAction)
    ensures
        p is LookUp <==> p@ is LookUp,
        p is Adjust <==> p@ is Adjust,
        p matches PrivilegeAction::Finish(r) ==> p@ is Finish && p@->Finish_0 == step_error(r),
        c is EnableProfilePrivilege <==> c@ is EnableProfilePrivilege,
        c is EnableDebugPrivilege <==> c@ is EnableDebugPrivilege,
        c is TrimWorkingSets <==> c@ is TrimWorkingSets,
        c is FlushModifiedList <==> c@ is FlushModifiedList,
        c is PurgeStandbyList <==> c@ is PurgeStandbyList,
        c is ReadMemory <==> c@ is ReadMemory,
        c matches ClearAction::Finish(r) ==> c@ is Finish && c@->Finish_0 == result_view(r),
        h is LaunchHelper <==> h@ is LaunchHelper,
        h is WaitForHelper <==> h@ is WaitForHelper,
        h is ReadFile <==> h@ is ReadFile,
        h is ParseFile <==> h@ is ParseFile,
        h matches HelperAction::Finish(r) ==> h@ is Finish && h@->Finish_0 == result_view(r),
{
}

} // verus!
