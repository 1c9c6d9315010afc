use vstd::prelude::*;

verus! {

/// What the environment check reports about the daemons.
#[derive(Debug)]
pub enum DaemonStatus {
    /// The coordinator could not be reached, so the daemons were not asked.
    Unknown,
    /// These machines have a daemon connected to the coordinator.
    Running(Vec<String>),
    /// The coordinator knows of no daemon, or could not be asked.
    NotRunning,
}

/// Decides the daemon line of the environment check from the answer of the
/// coordinator, if one was reached: `Ok` with the connected machines, or `Err`
/// when the question failed.
pub fn daemon_status(answer: Option<Result<Vec<String>, String>>) -> (r: DaemonStatus)
    ensures
        match answer {
            None => r is Unknown,
            Some(Ok(machines)) => if machines@.len() == 0 {
                r is NotRunning
            } else {
                r matches DaemonStatus::Running(m) && m@ == machines@
            },
            Some(Err(_)) => r is NotRunning,
        },
{
    match answer {
        None => DaemonStatus::Unknown,
        Some(Ok(machines)) => if machines.len() == 0 {
            DaemonStatus::NotRunning
        } else {
            DaemonStatus::Running(machines)
        },
        Some(Err(_)) => DaemonStatus::NotRunning,
    }
}

/// The environment check fails only when the coordinator was reached and no
/// daemon runs; an unreachable coordinator is reported but is no failure.
pub fn environment_check_failed(status: &DaemonStatus) -> (r: bool)
    ensures
        r == (status is NotRunning),
{
    match status {
        DaemonStatus::NotRunning => true,
        _ => false,
    }
}

} // verus!
