//! Installing and removing the patches, and reseeding the random number
//! generator after a fork.
use vstd::prelude::*;

verus! {

/// Whether the patches are in place, whether some of them may be in place
/// (an install that failed while applying them leaves those it applied),
/// and whether the reseed-after-fork hook has been registered (it is
/// registered once, on the first install).
#[derive(Clone, Copy, Debug)]
pub struct Installation {
    pub patched: bool,
    pub partly_patched: bool,
    pub at_fork_registered: bool,
}

/// The next thing an install has to do.
#[derive(Clone, Copy, Debug, PartialEq, Eq, Structural)]
pub enum InstallStep {
    /// Nothing: the patches are in place.
    Done,
    /// Register the reseed-after-fork hook, then apply the patches.
    RegisterAtFork,
    /// Apply the patches.
    ApplyPatches,
}

/// The next thing an uninstall has to do.
#[derive(Clone, Copy, Debug, PartialEq, Eq, Structural)]
pub enum UninstallStep {
    /// Nothing: no patch is in place.
    Done,
    /// Restore the unpatched functions.
    RestorePatches,
}

/// How an attempt to register the reseed-after-fork hook came out.
#[derive(Clone, Copy, Debug, PartialEq, Eq, Structural)]
pub enum HookOutcome {
    /// `os.register_at_fork` accepted the hook.
    Registered,
    /// The platform has no `os.register_at_fork`: there is nothing to register.
    Unavailable,
    /// The attempt raised; the exception is pending.
    Failed,
}

impl Installation {
    /// The next step of an install from this state.
    pub open spec fn install_step(self) -> InstallStep {
        if self.patched {
            InstallStep::Done
        } else if !self.at_fork_registered {
            InstallStep::RegisterAtFork
        } else {
            InstallStep::ApplyPatches
        }
    }

    /// The state once the hook is registered.
    pub open spec fn with_hook(self) -> Installation {
        Installation { at_fork_registered: true, ..self }
    }

    /// The state once the patches are applied.
    pub open spec fn with_patches(self) -> Installation {
        Installation { patched: true, ..self }
    }

    /// The state once applying the patches failed part way.
    pub open spec fn with_some_patches(self) -> Installation {
        Installation { partly_patched: true, ..self }
    }

    /// The state once the unpatched functions are restored.
    pub open spec fn without_patches(self) -> Installation {
        Installation { patched: false, partly_patched: false, ..self }
    }

    /// Whether any patch may be in place.
    pub open spec fn may_carry_patches(self) -> bool {
        self.patched || self.partly_patched
    }

    /// Nothing installed, nothing registered.
    pub fn new() -> (res: Self)
        ensures
            !res.patched,
            !res.partly_patched,
            !res.at_fork_registered,
    {
        Installation { patched: false, partly_patched: false, at_fork_registered: false }
    }

    /// Whether the patches are in place.
    pub fn installed(&self) -> (res: bool)
        ensures
            res == self.patched,
    {
        self.patched
    }

    /// The next step of an install.
    pub fn next_install_step(&self) -> (res: InstallStep)
        ensures
            res == self.install_step(),
    {
        if self.patched {
            InstallStep::Done
        } else if !self.at_fork_registered {
            InstallStep::RegisterAtFork
        } else {
            InstallStep::ApplyPatches
        }
    }

    /// Records how registering the hook came out, and says whether the
    /// install may go on: the hook counts as registered, and is never tried
    /// again, unless the attempt failed, in which case a later install tries
    /// again.
    pub fn record_hook_outcome(&mut self, outcome: HookOutcome) -> (ok: bool)
        ensures
            ok == (outcome != HookOutcome::Failed),
            *final(self) == if ok {
                old(self).with_hook()
            } else {
                *old(self)
            },
    {
        match outcome {
            HookOutcome::Failed => false,
            _ => {
                self.at_fork_registered = true;
                true
            },
        }
    }

    /// Records that the patches were applied.
    pub fn patches_applied(&mut self)
        ensures
            *final(self) == old(self).with_patches(),
    {
        self.patched = true;
    }

    /// Records that applying the patches failed, possibly after some of them
    /// were applied.
    pub fn patching_failed(&mut self)
        ensures
            *final(self) == old(self).with_some_patches(),
    {
        self.partly_patched = true;
    }

    /// The next step of an uninstall: restore whenever any patch may be in
    /// place.
    pub fn next_uninstall_step(&self) -> (res: UninstallStep)
        ensures
            res == if self.may_carry_patches() {
                UninstallStep::RestorePatches
            } else {
                UninstallStep::Done
            },
    {
        if self.patched || self.partly_patched {
            UninstallStep::RestorePatches
        } else {
            UninstallStep::Done
        }
    }

    /// Records that the unpatched functions were restored.
    pub fn patches_restored(&mut self)
        ensures
            *final(self) == old(self).without_patches(),
    {
        self.patched = false;
        self.partly_patched = false;
    }
}

/// Once the hook is registered, no install registers it again; once the
/// patches are in place, an install does nothing.
pub proof fn lemma_install_steps(s: Installation)
    ensures
        s.at_fork_registered ==> s.install_step() != InstallStep::RegisterAtFork,
        s.patched ==> s.install_step() == InstallStep::Done,
        !s.patched ==> s.install_step() != InstallStep::Done,
{
}

/// One call of `install` or `uninstall`, with how the outside work it may
/// attempt turns out: registering the hook, applying the patches, restoring
/// the unpatched functions.
#[derive(Clone, Copy, Debug)]
pub enum LifecycleCall {
    Install { registration_ok: bool, patching_ok: bool },
    Uninstall { restoring_ok: bool },
}

/// Whether a call is an `install`.
pub open spec fn is_install(call: LifecycleCall) -> bool {
    call is Install
}

/// Whether the call attempts to register the hook from state `s`.
pub open spec fn attempts_registration(s: Installation, call: LifecycleCall) -> bool {
    call is Install && s.install_step() == InstallStep::RegisterAtFork
}

/// Whether the call registers the hook from state `s`.
pub open spec fn registers(s: Installation, call: LifecycleCall) -> bool {
    match call {
        LifecycleCall::Install { registration_ok, .. } => attempts_registration(s, call)
            && registration_ok,
        LifecycleCall::Uninstall { .. } => false,
    }
}

/// Whether the call returns normally (rather than raising) from state `s`,
/// when it follows the steps that `install_step` and `next_uninstall_step`
/// give.
pub open spec fn call_succeeds(s: Installation, call: LifecycleCall) -> bool {
    match call {
        LifecycleCall::Install { registration_ok, patching_ok } => match s.install_step() {
            InstallStep::Done => true,
            InstallStep::RegisterAtFork => registration_ok && patching_ok,
            InstallStep::ApplyPatches => patching_ok,
        },
        LifecycleCall::Uninstall { restoring_ok } => !s.may_carry_patches() || restoring_ok,
    }
}

/// The state after the call, by the steps it takes from state `s`.
pub open spec fn after_call(s: Installation, call: LifecycleCall) -> Installation {
    match call {
        LifecycleCall::Install { registration_ok, patching_ok } => match s.install_step() {
            InstallStep::Done => s,
            InstallStep::RegisterAtFork => if !registration_ok {
                s
            } else if !patching_ok {
                s.with_hook().with_some_patches()
            } else {
                s.with_hook().with_patches()
            },
            InstallStep::ApplyPatches => if patching_ok {
                s.with_patches()
            } else {
                s.with_some_patches()
            },
        },
        LifecycleCall::Uninstall { restoring_ok } => if s.may_carry_patches() && restoring_ok {
            s.without_patches()
        } else {
            s
        },
    }
}

/// The state after the first `k` calls, starting from `start`.
pub open spec fn state_after_calls(start: Installation, calls: Seq<LifecycleCall>, k: int) -> Installation
    decreases k,
{
    if k <= 0 {
        start
    } else {
        after_call(state_after_calls(start, calls, k - 1), calls[k - 1])
    }
}

/// Whether call `i` of the sequence returned normally.
pub open spec fn succeeded_at(start: Installation, calls: Seq<LifecycleCall>, i: int) -> bool {
    call_succeeds(state_after_calls(start, calls, i), calls[i])
}

/// `installed()` answers whether, among the calls that returned normally,
/// the last one was an `install` (no, when none did), over any sequence of
/// calls that starts with the patches out.
pub proof fn lemma_installed_iff_last_success_installs(
    start: Installation,
    calls: Seq<LifecycleCall>,
    k: int,
)
    requires
        !start.patched,
        0 <= k <= calls.len(),
    ensures
        state_after_calls(start, calls, k).patched <==> exists|i: int|
            0 <= i < k && is_install(calls[i]) && succeeded_at(start, calls, i) && forall|j: int|
                i < j < k ==> !succeeded_at(start, calls, j),
    decreases k,
{
    if k > 0 {
        lemma_installed_iff_last_success_installs(start, calls, k - 1);
        let prev = state_after_calls(start, calls, k - 1);
        let last = k - 1;
        if succeeded_at(start, calls, last) {
            if is_install(calls[last]) {
                assert(state_after_calls(start, calls, k).patched);
            } else {
                assert(!state_after_calls(start, calls, k).patched);
                assert forall|i: int|
                    0 <= i < k && is_install(calls[i]) && succeeded_at(start, calls, i) implies !(
                forall|j: int| i < j < k ==> !succeeded_at(start, calls, j)) by {
                    assert(i < last);
                }
            }
        } else {
            assert(state_after_calls(start, calls, k).patched == prev.patched);
            if prev.patched {
                let i = choose|i: int|
                    0 <= i < k - 1 && is_install(calls[i]) && succeeded_at(start, calls, i)
                        && forall|j: int| i < j < k - 1 ==> !succeeded_at(start, calls, j);
                assert(forall|j: int| i < j < k ==> !succeeded_at(start, calls, j));
            } else {
                assert forall|i: int|
                    0 <= i < k && is_install(calls[i]) && succeeded_at(start, calls, i) implies !(
                forall|j: int| i < j < k ==> !succeeded_at(start, calls, j)) by {
                    if i < k - 1 {
                        if forall|j: int| i < j < k ==> !succeeded_at(start, calls, j) {
                            assert(forall|j: int| i < j < k - 1 ==> !succeeded_at(start, calls, j));
                        }
                    }
                }
            }
        }
    }
}

/// Whether the call tries to apply the patches from state `s`.
pub open spec fn attempts_patching(s: Installation, call: LifecycleCall) -> bool {
    match call {
        LifecycleCall::Install { registration_ok, .. } => match s.install_step() {
            InstallStep::Done => false,
            InstallStep::RegisterAtFork => registration_ok,
            InstallStep::ApplyPatches => true,
        },
        LifecycleCall::Uninstall { .. } => false,
    }
}

/// An install that tries to apply the patches, whether or not it succeeds,
/// leaves a state from which an uninstall restores them; an uninstall that
/// returns normally leaves no patch in place.
pub proof fn lemma_uninstall_restores_every_patch(s: Installation, call: LifecycleCall)
    ensures
        attempts_patching(s, call) ==> after_call(s, call).may_carry_patches(),
        call is Uninstall && call_succeeds(s, call) ==> !after_call(s, call).may_carry_patches(),
{
}

/// Once registered, the hook stays registered.
proof fn lemma_hook_stays(start: Installation, calls: Seq<LifecycleCall>, i: int, j: int)
    requires
        0 <= i <= j,
        state_after_calls(start, calls, i).at_fork_registered,
    ensures
        state_after_calls(start, calls, j).at_fork_registered,
    decreases j - i,
{
    if i < j {
        lemma_hook_stays(start, calls, i, j - 1);
    }
}

/// Over any sequence of calls, once a call has registered the hook no later
/// call attempts to register it again: the hook is registered at most once.
pub proof fn lemma_hook_registered_once(
    start: Installation,
    calls: Seq<LifecycleCall>,
    i: int,
    j: int,
)
    requires
        0 <= i < j < calls.len(),
        registers(state_after_calls(start, calls, i), calls[i]),
    ensures
        !attempts_registration(state_after_calls(start, calls, j), calls[j]),
        !registers(state_after_calls(start, calls, j), calls[j]),
{
    assert(state_after_calls(start, calls, i + 1).at_fork_registered);
    lemma_hook_stays(start, calls, i + 1, j);
}

/// The message given when the reseed error's own text cannot be used.
pub open spec fn reseed_fallback_message() -> Seq<u8> {
    // "failed to reseed random number generator"
    seq![
        102u8, 97u8, 105u8, 108u8, 101u8, 100u8, 32u8, 116u8, 111u8, 32u8, 114u8, 101u8, 115u8,
        101u8, 101u8, 100u8, 32u8, 114u8, 97u8, 110u8, 100u8, 111u8, 109u8, 32u8, 110u8, 117u8,
        109u8, 98u8, 101u8, 114u8, 32u8, 103u8, 101u8, 110u8, 101u8, 114u8, 97u8, 116u8, 111u8,
        114u8,
    ]
}

/// The text of an `OSError` raised for a reseed failure: the error's own
/// text, unless it holds a NUL byte, which a C string cannot carry.
pub open spec fn reseed_error_text(message: Seq<u8>) -> Seq<u8> {
    if message.contains(0u8) {
        reseed_fallback_message()
    } else {
        message
    }
}

/// Chooses the text of the `OSError` raised for a reseed failure.
pub fn reseed_error_message(message: &[u8]) -> (res: Vec<u8>)
    ensures
        res@ == reseed_error_text(message@),
        !res@.contains(0u8),
{
    let mut i: usize = 0;
    while i < message.len()
        invariant
            i <= message@.len(),
            forall|j: int| 0 <= j < i ==> message@[j] != 0u8,
        decreases message@.len() - i,
    {
        if message[i] == 0 {
            let res: Vec<u8> = vec![
                102u8, 97u8, 105u8, 108u8, 101u8, 100u8, 32u8, 116u8, 111u8, 32u8, 114u8, 101u8,
                115u8, 101u8, 101u8, 100u8, 32u8, 114u8, 97u8, 110u8, 100u8, 111u8, 109u8, 32u8,
                110u8, 117u8, 109u8, 98u8, 101u8, 114u8, 32u8, 103u8, 101u8, 110u8, 101u8, 114u8,
                97u8, 116u8, 111u8, 114u8,
            ];
            assert(message@.contains(0u8)) by {
                assert(message@[i as int] == 0u8);
            }
            assert(res@ =~= reseed_fallback_message());
            assert(!res@.contains(0u8)) by {
                assert(forall|j: int| 0 <= j < res@.len() ==> res@[j] != 0u8);
            }
            return res;
        }
        i += 1;
    }
    let mut res: Vec<u8> = Vec::new();
    let mut k: usize = 0;
    while k < message.len()
        invariant
            k <= message@.len(),
            forall|j: int| 0 <= j < message@.len() ==> message@[j] != 0u8,
            res@ == message@.take(k as int),
        decreases message@.len() - k,
    {
        res.push(message[k]);
        k += 1;
        assert(res@ =~= message@.take(k as int));
    }
    assert(res@ =~= message@);
    res
}

/// `rand::rng().reseed()`: reseeds the thread's generator from the operating
/// system. Whether it succeeds depends on the operating system; on failure
/// the error's text is handed back as bytes. Nothing is stated of either.
#[verifier::external_body]
fn thread_rng_reseed() -> (res: Result<(), Vec<u8>>) {
    match rand::rng().reseed() {
        Ok(()) => Ok(()),
        Err(err) => Err(err.to_string().into_bytes()),
    }
}

/// Reseeds the thread's random number generator; on failure, the text of
/// the `OSError` to raise, which never holds a NUL byte.
pub fn reseed_rng() -> (res: Result<(), Vec<u8>>)
    ensures
        res matches Err(text) ==> !text@.contains(0u8),
{
    match thread_rng_reseed() {
        Ok(()) => Ok(()),
        Err(message) => Err(reseed_error_message(message.as_slice())),
    }
}

} // verus!
