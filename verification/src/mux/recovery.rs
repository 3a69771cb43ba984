//! Getting back to disk retention after the daemon had to do without.

use vstd::prelude::*;

use crate::mux::{MuxRetentionState, MuxRuntime, Retention};
use crate::text::{joined, optional_text};

verus! {

/// Whether nothing replaced a recovery or the configuration since it began.
pub fn mux_recovery_generation_matches(
    current_generation: u64,
    current_configuration_generation: u64,
    expected_generation: u64,
    expected_configuration_generation: u64,
) -> (result: bool)
    ensures
        result == (current_generation == expected_generation && current_configuration_generation
            == expected_configuration_generation),
{
    current_generation == expected_generation && current_configuration_generation
        == expected_configuration_generation
}

/// How many different waits there are between attempts.
pub const RECOVERY_DELAY_COUNT: usize = 5;

/// How long an attempt is waited for, in seconds.
pub open spec fn recovery_delay(index: int) -> u64 {
    if index <= 0 {
        5
    } else if index == 1 {
        10
    } else if index == 2 {
        20
    } else if index == 3 {
        40
    } else {
        60
    }
}

/// A recovery under way.
#[derive(Clone, Copy, Debug, PartialEq, Eq, Structural)]
pub struct MuxRecovery {
    pub client: u64,
    pub generation: u64,
    pub configuration_generation: u64,
    pub delay_index: usize,
}

impl MuxRecovery {
    /// How long the next attempt is waited for, in seconds.
    pub fn delay(&self) -> (result: u64)
        ensures
            result == recovery_delay(self.delay_index as int),
    {
        if self.delay_index == 0 {
            5
        } else if self.delay_index == 1 {
            10
        } else if self.delay_index == 2 {
            20
        } else if self.delay_index == 3 {
            40
        } else {
            60
        }
    }
}

/// What the application holds of the multiplexer's connection.
#[derive(Debug, PartialEq, Eq)]
pub struct MuxControl {
    pub runtime: Option<MuxRuntime>,
    pub recovery_generation: u64,
    /// Whether a recovery runs.
    pub recovering: bool,
    pub configuration_generation: u64,
    pub configuration_error: Option<String>,
}

/// A generation after the given one.
pub open spec fn next_generation(generation: u64) -> u64 {
    if generation == u64::MAX {
        0
    } else {
        (generation + 1) as u64
    }
}

/// Whether a connection waits for its disk retention.
pub open spec fn awaits_disk(runtime: Option<MuxRuntime>) -> bool {
    match runtime {
        Some(runtime) => runtime.retention_state.requested == Retention::Disk
            && runtime.retention_state.degraded_reason is Some,
        None => false,
    }
}

/// What a recovery's attempt came to.
#[derive(Clone, Copy, Debug, PartialEq, Eq, Structural)]
pub enum RecoveryStep {
    /// The recovery was replaced: it ends without a trace.
    Superseded,
    /// Disk retention is back: the recovery ends and says so.
    Restored,
    /// The next attempt is waited for.
    Retry,
    /// The recovery ends with an error.
    Failed,
}

/// The notice that disk retention is not to be had for now.
pub open spec fn degraded_text(reason: Seq<char>) -> Seq<char> {
    "Disk session retention is temporarily unavailable ("@ + reason
        + "). New detached sessions will be kept in memory until persistence is restored."@
}

/// The notice that disk retention is not to be had for now.
pub fn mux_degraded_notice(reason: &str) -> (result: String)
    ensures
        result@ == degraded_text(reason@),
{
    let mut text = joined("Disk session retention is temporarily unavailable (", reason);
    text.push_str(
        "). New detached sessions will be kept in memory until persistence is restored.",
    );
    text
}

/// The notice that disk retention is back.
pub const RESTORED_NOTICE: &'static str = "Disk session retention restored.";

impl MuxControl {
    /// Whether a recovery is still the one that counts.
    pub open spec fn is_current(self, recovery: MuxRecovery) -> bool {
        &&& self.recovery_generation == recovery.generation
        &&& self.configuration_generation == recovery.configuration_generation
        &&& self.runtime is Some
        &&& (self.runtime->0).client == recovery.client
        &&& awaits_disk(self.runtime)
    }

    /// Whether a recovery is still the one that counts.
    pub fn current_mux_recovery(&self, recovery: &MuxRecovery) -> (result: bool)
        ensures
            result == self.is_current(*recovery),
    {
        if !mux_recovery_generation_matches(
            self.recovery_generation,
            self.configuration_generation,
            recovery.generation,
            recovery.configuration_generation,
        ) {
            return false;
        }
        match &self.runtime {
            Some(runtime) => runtime.client == recovery.client && matches!(
                runtime.requested_retention(),
                Retention::Disk
            ) && runtime.is_degraded(),
            None => false,
        }
    }

    /// Ends any recovery that runs.
    pub fn invalidate_mux_recovery(&mut self)
        ensures
            *final(self) == (MuxControl {
                recovery_generation: next_generation(old(self).recovery_generation),
                recovering: false,
                ..*old(self)
            }),
    {
        self.recovery_generation = self.recovery_generation.wrapping_add(1);
        self.recovering = false;
    }

    /// Begins a recovery where the connection waits for its disk retention, in
    /// place of any that runs.
    pub fn schedule_mux_recovery(&mut self) -> (result: Option<MuxRecovery>)
        ensures
            *final(self) == (MuxControl {
                recovery_generation: next_generation(old(self).recovery_generation),
                recovering: awaits_disk(old(self).runtime),
                ..*old(self)
            }),
            match result {
                Some(recovery) => {
                    &&& awaits_disk(old(self).runtime)
                    &&& recovery.client == (old(self).runtime->0).client
                    &&& recovery.generation == final(self).recovery_generation
                    &&& recovery.configuration_generation == old(self).configuration_generation
                    &&& recovery.delay_index == 0
                    &&& final(self).is_current(recovery)
                },
                None => !awaits_disk(old(self).runtime),
            },
    {
        let client: Option<u64> = match &self.runtime {
            Some(runtime) => if matches!(runtime.requested_retention(), Retention::Disk)
                && runtime.is_degraded() {
                Some(runtime.client)
            } else {
                None
            },
            None => None,
        };
        self.invalidate_mux_recovery();
        match client {
            Some(client) => {
                self.recovering = true;
                Some(
                    MuxRecovery {
                        client,
                        generation: self.recovery_generation,
                        configuration_generation: self.configuration_generation,
                        delay_index: 0,
                    },
                )
            },
            None => None,
        }
    }

    /// Begins a recovery where it is needed, and gives the notice that goes
    /// with it. Where none is needed, one that runs ends.
    pub fn start_mux_recovery_if_needed(&mut self) -> (result: (
        Option<String>,
        Option<MuxRecovery>,
    ))
        ensures
            *final(self) == (MuxControl {
                recovery_generation: next_generation(old(self).recovery_generation),
                recovering: awaits_disk(old(self).runtime),
                ..*old(self)
            }),
            optional_text(result.0) == match old(self).runtime {
                Some(runtime) => match runtime.retention_state.degraded_reason {
                    Some(reason) => Some(degraded_text(reason@)),
                    None => None,
                },
                None => None,
            },
            result.1 is Some <==> awaits_disk(old(self).runtime),
            result.1 matches Some(recovery) ==> final(self).is_current(recovery)
                && recovery.delay_index == 0,
    {
        let notice = match &self.runtime {
            Some(runtime) => match &runtime.retention_state.degraded_reason {
                Some(reason) => Some(mux_degraded_notice(reason.as_str())),
                None => None,
            },
            None => None,
        };
        if notice.is_some() {
            let recovery = self.schedule_mux_recovery();
            (notice, recovery)
        } else {
            self.invalidate_mux_recovery();
            (None, None)
        }
    }

    /// Takes over a connection.
    pub fn install_mux_runtime(&mut self, runtime: MuxRuntime) -> (result: (
        Option<String>,
        Option<MuxRecovery>,
    ))
        ensures
            *final(self) == (MuxControl {
                runtime: Some(runtime),
                recovery_generation: next_generation(old(self).recovery_generation),
                recovering: awaits_disk(Some(runtime)),
                ..*old(self)
            }),
            optional_text(result.0) == match runtime.retention_state.degraded_reason {
                Some(reason) => Some(degraded_text(reason@)),
                None => None,
            },
            result.1 is Some <==> awaits_disk(Some(runtime)),
            result.1 matches Some(recovery) ==> final(self).is_current(recovery)
                && recovery.delay_index == 0,
    {
        self.runtime = Some(runtime);
        self.start_mux_recovery_if_needed()
    }

    /// Takes what an attempt of a recovery came to: how the daemon answered
    /// when it was asked for disk retention again.
    pub fn recovery_attempt(
        &mut self,
        recovery: &mut MuxRecovery,
        answer: Result<MuxRetentionState, String>,
    ) -> (result: RecoveryStep)
        requires
            old(recovery).delay_index < RECOVERY_DELAY_COUNT,
        ensures
            final(recovery).delay_index < RECOVERY_DELAY_COUNT,
            !old(self).is_current(*old(recovery)) ==> {
                &&& result == RecoveryStep::Superseded
                &&& *final(self) == *old(self)
                &&& *final(recovery) == *old(recovery)
            },
            old(self).is_current(*old(recovery)) ==> match answer {
                Ok(configuration) => {
                    &&& final(self).runtime == Some(
                        MuxRuntime {
                            client: old(recovery).client,
                            retention_state: configuration,
                        },
                    )
                    &&& final(self).recovery_generation == old(self).recovery_generation
                    &&& final(self).configuration_generation == old(self).configuration_generation
                    &&& final(self).configuration_error == old(self).configuration_error
                    &&& if configuration.effective == Retention::Disk {
                        &&& result == RecoveryStep::Restored
                        &&& !final(self).recovering
                        &&& *final(recovery) == *old(recovery)
                    } else {
                        &&& result == RecoveryStep::Retry
                        &&& final(self).recovering == old(self).recovering
                        &&& *final(recovery) == (MuxRecovery {
                            delay_index: if old(recovery).delay_index + 1 < RECOVERY_DELAY_COUNT {
                                (old(recovery).delay_index + 1) as usize
                            } else {
                                (RECOVERY_DELAY_COUNT - 1) as usize
                            },
                            ..*old(recovery)
                        })
                    }
                },
                Err(error) => {
                    &&& result == RecoveryStep::Failed
                    &&& *final(recovery) == *old(recovery)
                    &&& !final(self).recovering
                    &&& optional_text(final(self).configuration_error) == Some(
                        "Could not restore disk session persistence: "@ + error@,
                    )
                    &&& final(self).runtime == old(self).runtime
                    &&& final(self).recovery_generation == old(self).recovery_generation
                    &&& final(self).configuration_generation == old(self).configuration_generation
                },
            },
    {
        if !self.current_mux_recovery(recovery) {
            return RecoveryStep::Superseded;
        }
        match answer {
            Ok(configuration) => {
                let restored = matches!(configuration.effective, Retention::Disk);
                self.runtime = Some(
                    MuxRuntime::connected_with(recovery.client, configuration),
                );
                if restored {
                    self.recovering = false;
                    RecoveryStep::Restored
                } else {
                    if recovery.delay_index + 1 < RECOVERY_DELAY_COUNT {
                        recovery.delay_index = recovery.delay_index + 1;
                    } else {
                        recovery.delay_index = RECOVERY_DELAY_COUNT - 1;
                    }
                    RecoveryStep::Retry
                }
            },
            Err(error) => {
                self.recovering = false;
                self.configuration_error = Some(
                    joined("Could not restore disk session persistence: ", error.as_str()),
                );
                RecoveryStep::Failed
            },
        }
    }
}

/// A recovery that was replaced, or whose configuration was, has no effect any
/// more: neither what it applies nor what it says.
pub proof fn law_replaced_recovery_is_not_current(control: MuxControl, recovery: MuxRecovery)
    requires
        control.is_current(recovery),
    ensures
        !(MuxControl {
            recovery_generation: next_generation(control.recovery_generation),
            ..control
        }).is_current(recovery),
        !(MuxControl {
            configuration_generation: next_generation(control.configuration_generation),
            ..control
        }).is_current(recovery),
{
}

/// The waits between attempts never get shorter, and never longer than a
/// minute.
pub proof fn law_recovery_backs_off(index: int)
    requires
        0 <= index,
    ensures
        recovery_delay(index) <= recovery_delay(index + 1) <= 60,
        5 <= recovery_delay(index),
        index < RECOVERY_DELAY_COUNT - 1 ==> recovery_delay(index) < recovery_delay(index + 1),
{
}

} // verus!
