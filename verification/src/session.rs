use vstd::prelude::*;
use vstd::string::StrSliceExecFns;

use crate::GammaError;
use crate::pack::channel_bytes;
use crate::pack::pack_ramp;
use crate::pack::ramp_bytes;
use crate::pack::sample_seq;
use crate::ramp::MAX_RAMP_SIZE;
use crate::ramp::compute_ramp;

verus! {

/// The interface name under which the compositor announces an output.
pub open spec fn output_iface() -> Seq<char> {
    "wl_output"@
}

/// The interface name of the gamma-control manager capability.
pub open spec fn manager_iface() -> Seq<char> {
    "zwlr_gamma_control_manager_v1"@
}

/// Character-for-character string comparison, pinned to view equality.
pub fn str_eq(a: &str, b: &str) -> (r: bool)
    ensures
        r <==> a@ == b@,
{
    let n = a.unicode_len();
    let m = b.unicode_len();
    if n != m {
        return false;
    }
    let mut i: usize = 0;
    while i < n
        invariant
            n == a@.len(),
            n == b@.len(),
            i <= n,
            forall|j: int| 0 <= j < i ==> a@[j] == b@[j],
        decreases n - i,
    {
        if a.get_char(i) != b.get_char(i) {
            return false;
        }
        i = i + 1;
    }
    proof {
        assert(a@ =~= b@);
    }
    true
}

/// The lifecycle of the per-output gamma control.
#[derive(Clone, Copy, Debug, PartialEq, Eq, Structural)]
pub enum SessionPhase {
    /// No gamma control has been requested yet.
    Idle,
    /// A gamma control was created; its ramp size is not yet known.
    Selecting,
    /// The ramp size is known and positive; a table can be applied.
    Ready,
    /// A set-gamma request is in flight, awaiting its round-trip.
    Applying,
    /// The last set-gamma request completed without a failure event.
    Applied,
    /// The compositor reported failure; only a fresh select recovers.
    Failed,
}

/// What the registry handler should bind for an announced global.
#[derive(Clone, Copy, Debug, PartialEq, Eq, Structural)]
pub enum GlobalBind {
    /// Bind the announced global as the output with the given stable index.
    Output { index: usize },
    /// Bind the announced global as the gamma-control manager.
    Manager,
    /// Leave the announced global unbound.
    Skip,
}

/// What the caller must do on the compositor connection after a `select`:
/// first destroy the previously live gamma control, if any, then create a
/// new one for the chosen output.  Destroying first keeps at most one gamma
/// control alive at any instant.
#[derive(Clone, Copy, Debug, PartialEq, Eq, Structural)]
pub struct SelectPlan {
    /// Index of the output whose gamma control must be destroyed first.
    pub destroy_first: Option<usize>,
    /// Index of the output to create the new gamma control for.
    pub create_for: usize,
}

/// One request forwarded over local IPC: absent fields fall back to the
/// session's currently active output and gamma.  The gamma exponent travels
/// in thousandths.
#[derive(Clone, Copy, Debug, PartialEq, Eq)]
pub struct IpcMessage {
    pub output: Option<usize>,
    pub gamma_milli: Option<u32>,
}

/// The protocol session: the discovered capability directory and the state
/// machine around the single live per-output gamma control.
pub struct GammaSession {
    /// How many outputs discovery has appended, in announcement order.
    pub n_outputs: usize,
    /// Whether the gamma-control manager capability was bound.
    pub has_manager: bool,
    /// Where the per-output gamma control stands.
    pub phase: SessionPhase,
    /// The output index the live gamma control is bound to, if one exists.
    pub control: Option<usize>,
    /// The ramp size the compositor reported for the live control; 0 until
    /// reported.
    pub ramp_size: u32,
    /// The currently active output index, the default for requests.
    pub active_output: usize,
    /// The currently active gamma in thousandths, the default for requests.
    pub active_gamma_milli: u32,
}

impl GammaSession {
    /// Internal consistency: a control exists exactly outside `Idle`, is
    /// bound to a discovered output under a bound manager, and any phase
    /// that lets a table be applied knows a positive ramp size.
    pub open spec fn wf(self) -> bool {
        &&& (self.control is None <==> self.phase == SessionPhase::Idle)
        &&& (self.control matches Some(j) ==> j < self.n_outputs && self.has_manager)
        &&& ((self.phase == SessionPhase::Ready || self.phase == SessionPhase::Applying
            || self.phase == SessionPhase::Applied) ==> self.ramp_size >= 1)
    }

    /// A fresh session: nothing discovered, no control, defaults of output 0
    /// and gamma 1.0.
    pub fn new() -> (s: Self)
        ensures
            s.wf(),
            s.n_outputs == 0,
            !s.has_manager,
            s.phase == SessionPhase::Idle,
            s.control is None,
            s.ramp_size == 0,
            s.active_output == 0,
            s.active_gamma_milli == 1000,
    {
        GammaSession {
            n_outputs: 0,
            has_manager: false,
            phase: SessionPhase::Idle,
            control: None,
            ramp_size: 0,
            active_output: 0,
            active_gamma_milli: 1000,
        }
    }

    /// Registry announcement handler: appends output-class globals to the
    /// ordered output list (index = announcement order) and binds the
    /// gamma-control manager once, first announcement wins; everything else
    /// is left unbound.
    pub fn on_global(&mut self, interface: &str) -> (r: GlobalBind)
        requires
            old(self).wf(),
            old(self).n_outputs < usize::MAX,
        ensures
            final(self).wf(),
            interface@ == output_iface() ==> *final(self) == (GammaSession {
                n_outputs: (old(self).n_outputs + 1) as usize,
                ..*old(self)
            }) && r == (GlobalBind::Output { index: old(self).n_outputs }),
            interface@ == manager_iface() && !old(self).has_manager ==> *final(self)
                == (GammaSession { has_manager: true, ..*old(self) }) && r == GlobalBind::Manager,
            interface@ == manager_iface() && old(self).has_manager ==> *final(self) == *old(self)
                && r == GlobalBind::Skip,
            interface@ != output_iface() && interface@ != manager_iface() ==> *final(self) == *old(
                self,
            ) && r == GlobalBind::Skip,
    {
        proof {
            reveal_strlit("wl_output");
            reveal_strlit("zwlr_gamma_control_manager_v1");
            assert(output_iface().len() == 9);
            assert(manager_iface().len() == 29);
        }
        if str_eq(interface, "wl_output") {
            let index = self.n_outputs;
            self.n_outputs = self.n_outputs + 1;
            GlobalBind::Output { index }
        } else if str_eq(interface, "zwlr_gamma_control_manager_v1") {
            if !self.has_manager {
                self.has_manager = true;
                GlobalBind::Manager
            } else {
                GlobalBind::Skip
            }
        } else {
            GlobalBind::Skip
        }
    }

    /// Verdict on the capability directory after the startup round-trip:
    /// an empty output list is `NoOutputs`, a missing gamma-control manager
    /// is `UnsupportedCompositor`, in that order.
    pub fn check_discovery(&self) -> (r: Result<(), GammaError>)
        ensures
            self.n_outputs == 0 ==> r == Err::<(), GammaError>(GammaError::NoOutputs),
            self.n_outputs >= 1 && !self.has_manager ==> r == Err::<(), GammaError>(
                GammaError::UnsupportedCompositor,
            ),
            self.n_outputs >= 1 && self.has_manager ==> r == Ok::<(), GammaError>(()),
    {
        if self.n_outputs == 0 {
            Err(GammaError::NoOutputs)
        } else if !self.has_manager {
            Err(GammaError::UnsupportedCompositor)
        } else {
            Ok(())
        }
    }

    /// Selects the output whose gamma is controlled.  An out-of-range index
    /// is `InvalidOutput`; without a bound manager nothing can be created.
    /// On success the previously live control (if any) is scheduled for
    /// destruction before the new one is created, the new control is bound
    /// to the chosen output, its ramp size is pending again, and the chosen
    /// output becomes the active one.
    pub fn select(&mut self, output_index: usize) -> (r: Result<SelectPlan, GammaError>)
        requires
            old(self).wf(),
        ensures
            final(self).wf(),
            output_index >= old(self).n_outputs ==> r == Err::<SelectPlan, GammaError>(
                GammaError::InvalidOutput,
            ) && *final(self) == *old(self),
            output_index < old(self).n_outputs && !old(self).has_manager ==> r == Err::<
                SelectPlan,
                GammaError,
            >(GammaError::UnsupportedCompositor) && *final(self) == *old(self),
            output_index < old(self).n_outputs && old(self).has_manager ==> r == Ok::<
                SelectPlan,
                GammaError,
            >(
                SelectPlan { destroy_first: old(self).control, create_for: output_index },
            ) && *final(self) == (GammaSession {
                phase: SessionPhase::Selecting,
                control: Some(output_index),
                ramp_size: 0,
                active_output: output_index,
                ..*old(self)
            }),
    {
        if output_index >= self.n_outputs {
            return Err(GammaError::InvalidOutput);
        }
        if !self.has_manager {
            return Err(GammaError::UnsupportedCompositor);
        }
        let plan = SelectPlan { destroy_first: self.control, create_for: output_index };
        self.control = Some(output_index);
        self.phase = SessionPhase::Selecting;
        self.ramp_size = 0;
        self.active_output = output_index;
        Ok(plan)
    }

    /// Ramp-size notification for the live control: while selecting, the
    /// value is recorded and a positive value makes the control ready; a
    /// reported 0 keeps the session selecting, asking the caller to drive
    /// another round-trip.  In any other phase the event is ignored.
    pub fn on_ramp_size(&mut self, size: u32)
        requires
            old(self).wf(),
        ensures
            final(self).wf(),
            old(self).phase == SessionPhase::Selecting && size >= 1 ==> *final(self)
                == (GammaSession { phase: SessionPhase::Ready, ramp_size: size, ..*old(self) }),
            old(self).phase == SessionPhase::Selecting && size == 0 ==> *final(self)
                == (GammaSession { ramp_size: size, ..*old(self) }),
            old(self).phase != SessionPhase::Selecting ==> *final(self) == *old(self),
    {
        if self.phase == SessionPhase::Selecting {
            self.ramp_size = size;
            if size >= 1 {
                self.phase = SessionPhase::Ready;
            }
        }
    }

    /// Failure notification from the compositor: any non-terminal phase
    /// (selecting, ready, applying) collapses to `Failed`; the control is
    /// unusable until a fresh select.
    pub fn on_failed(&mut self)
        requires
            old(self).wf(),
        ensures
            final(self).wf(),
            (old(self).phase == SessionPhase::Selecting || old(self).phase == SessionPhase::Ready
                || old(self).phase == SessionPhase::Applying) ==> *final(self) == (GammaSession {
                phase: SessionPhase::Failed,
                ..*old(self)
            }),
            !(old(self).phase == SessionPhase::Selecting || old(self).phase == SessionPhase::Ready
                || old(self).phase == SessionPhase::Applying) ==> *final(self) == *old(self),
    {
        if self.phase == SessionPhase::Selecting || self.phase == SessionPhase::Ready
            || self.phase == SessionPhase::Applying {
            self.phase = SessionPhase::Failed;
        }
    }

    /// Builds the gamma table for the live control: requires a ready
    /// control, a positive exponent, and a representable ramp size; on
    /// success returns the exact wire bytes (three channel blocks of
    /// `ramp_size` little-endian 16-bit samples), records the exponent as
    /// active and moves to `Applying`, where only the follow-up round-trip
    /// decides between applied and failed.
    pub fn apply(&mut self, gamma_milli: u32) -> (r: Result<Vec<u8>, GammaError>)
        requires
            old(self).wf(),
        ensures
            final(self).wf(),
            old(self).phase != SessionPhase::Ready ==> r == Err::<Vec<u8>, GammaError>(
                GammaError::NotReady,
            ) && *final(self) == *old(self),
            old(self).phase == SessionPhase::Ready && gamma_milli == 0 ==> r == Err::<
                Vec<u8>,
                GammaError,
            >(GammaError::InvalidGamma) && *final(self) == *old(self),
            old(self).phase == SessionPhase::Ready && gamma_milli >= 1 && (old(self).ramp_size < 2
                || old(self).ramp_size > MAX_RAMP_SIZE) ==> r == Err::<Vec<u8>, GammaError>(
                GammaError::InvalidRampSize,
            ) && *final(self) == *old(self),
            old(self).phase == SessionPhase::Ready && gamma_milli >= 1 && 2 <= old(self).ramp_size
                <= MAX_RAMP_SIZE ==> (r matches Ok(bytes) && bytes@ == ramp_bytes(
                old(self).ramp_size as nat,
                gamma_milli as nat,
            ) && bytes@.len() == 3 * (old(self).ramp_size as nat) * 2 && *final(self)
                == (GammaSession {
                phase: SessionPhase::Applying,
                active_gamma_milli: gamma_milli,
                ..*old(self)
            })),
    {
        if self.phase != SessionPhase::Ready {
            return Err(GammaError::NotReady);
        }
        let size = self.ramp_size as usize;
        let ramp = match compute_ramp(size, gamma_milli) {
            Ok(ramp) => ramp,
            Err(e) => {
                return Err(e);
            },
        };
        let bytes = pack_ramp(&ramp);
        proof {
            assert(ramp.red@ =~= sample_seq(size as nat, gamma_milli as nat));
            assert(channel_bytes(ramp.green@) == channel_bytes(ramp.red@));
            assert(channel_bytes(ramp.blue@) == channel_bytes(ramp.red@));
            assert(bytes@ =~= ramp_bytes(size as nat, gamma_milli as nat));
        }
        self.phase = SessionPhase::Applying;
        self.active_gamma_milli = gamma_milli;
        Ok(bytes)
    }

    /// Round-trip completion after an apply: if no failure notification
    /// arrived while the request was in flight, the table is applied.
    pub fn finish_apply(&mut self)
        requires
            old(self).wf(),
        ensures
            final(self).wf(),
            old(self).phase == SessionPhase::Applying ==> *final(self) == (GammaSession {
                phase: SessionPhase::Applied,
                ..*old(self)
            }),
            old(self).phase != SessionPhase::Applying ==> *final(self) == *old(self),
    {
        if self.phase == SessionPhase::Applying {
            self.phase = SessionPhase::Applied;
        }
    }

    /// Fills a request's absent fields from the session's currently active
    /// output and gamma.
    pub fn resolve_request(&self, msg: &IpcMessage) -> (r: (usize, u32))
        ensures
            r.0 == (if msg.output is Some {
                msg.output->Some_0
            } else {
                self.active_output
            }),
            r.1 == (if msg.gamma_milli is Some {
                msg.gamma_milli->Some_0
            } else {
                self.active_gamma_milli
            }),
    {
        let output = match msg.output {
            Some(o) => o,
            None => self.active_output,
        };
        let gamma = match msg.gamma_milli {
            Some(g) => g,
            None => self.active_gamma_milli,
        };
        (output, gamma)
    }
}

} // verus!
