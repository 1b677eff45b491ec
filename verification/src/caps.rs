//! Something that happens when a hotkey is let go of, if no other key was clicked between
//! pressing and releasing it.

use vstd::prelude::*;

verus! {

/// What can happen to a hotkey.
pub ghost enum Signal {
    /// It is pressed.
    Await,
    /// Another key is pressed.
    Interrupt,
    /// It is let go of.
    Release,
}

/// Whether letting go of the hotkey will activate it, after `signal`.
pub open spec fn armed_by(signal: Signal) -> bool {
    match signal {
        Signal::Await => true,
        Signal::Interrupt => false,
        Signal::Release => false,
    }
}

/// Calls a function when a hotkey is let go of without an interruption.
pub struct ActivateOnRelease<F> {
    f: F,
    /// Will be set to false if any other presses occur.
    should_activate: bool,
}

impl<F: FnMut()> ActivateOnRelease<F> {
    /// Whether letting go of the hotkey would activate it now.
    pub closed spec fn armed(&self) -> bool {
        self.should_activate
    }

    /// The function that it calls.
    pub closed spec fn function(&self) -> F {
        self.f
    }

    /// Nothing is pressed yet.
    pub fn new(f: F) -> (r: Self)
        ensures
            r.function() == f,
            !r.armed(),
    {
        ActivateOnRelease { f, should_activate: false }
    }

    /// The hotkey is pressed.
    pub fn await_release(&mut self)
        ensures
            final(self).function() == old(self).function(),
            final(self).armed() == armed_by(Signal::Await),
    {
        self.should_activate = true;
    }

    /// Another key is pressed.
    pub fn interrupt(&mut self)
        ensures
            final(self).function() == old(self).function(),
            final(self).armed() == armed_by(Signal::Interrupt),
    {
        self.should_activate = false;
    }

    /// The hotkey is let go of: calls the function if nothing else was pressed since, and
    /// returns whether it did.
    pub fn maybe_activate(&mut self) -> (activated: bool)
        requires
            old(self).armed() ==> call_requires(old(self).function(), ()),
        ensures
            activated == old(self).armed(),
            activated ==> call_ensures(old(self).function(), (), ()),
            final(self).function() == old(self).function(),
            final(self).armed() == armed_by(Signal::Release),
    {
        let activated: bool = self.should_activate;
        if activated {
            (self.f)();
        }
        self.should_activate = false;
        activated
    }
}

/// Whether letting go of the hotkey activates it, after it went through `signals`.
pub open spec fn armed_after(signals: Seq<Signal>) -> bool {
    signals.len() > 0 && armed_by(signals.last())
}

/// How often the hotkey activated while it went through `signals`.
pub open spec fn activations(signals: Seq<Signal>) -> nat
    decreases signals.len(),
{
    if signals.len() == 0 {
        0
    } else {
        let before = signals.drop_last();
        activations(before) + if signals.last() is Release && armed_after(before) {
            1nat
        } else {
            0
        }
    }
}

/// How often the hotkey was pressed in `signals`.
pub open spec fn presses_in(signals: Seq<Signal>) -> nat
    decreases signals.len(),
{
    if signals.len() == 0 {
        0
    } else {
        presses_in(signals.drop_last()) + if signals.last() is Await {
            1nat
        } else {
            0
        }
    }
}

/// Whatever happened before, letting go of the hotkey activates it once if pressing it was the
/// last thing that happened, and not at all otherwise. It is not armed afterwards.
pub proof fn law_release_activates_after_press(signals: Seq<Signal>)
    ensures
        activations(signals.push(Signal::Release)) == activations(signals) + (if signals.len() > 0
            && signals.last() is Await {
            1nat
        } else {
            0
        }),
        !armed_after(signals.push(Signal::Release)),
{
    assert(signals.push(Signal::Release).drop_last() == signals);
}

/// If another key was pressed since the hotkey was, or it was let go of already, it does not
/// activate.
pub proof fn law_interruption_prevents_activation(signals: Seq<Signal>, interruption: int)
    requires
        0 <= interruption < signals.len(),
        !(signals[interruption] is Await),
        forall|i: int| interruption < i < signals.len() ==> !(#[trigger] signals[i] is Await),
    ensures
        !armed_after(signals),
        activations(signals.push(Signal::Release)) == activations(signals),
{
    law_release_activates_after_press(signals);
}

/// The hotkey activates once at most for each time that it is pressed.
pub proof fn law_one_activation_for_each_press(signals: Seq<Signal>)
    ensures
        activations(signals) + (if armed_after(signals) {
            1nat
        } else {
            0
        }) <= presses_in(signals),
    decreases signals.len(),
{
    if signals.len() > 0 {
        law_one_activation_for_each_press(signals.drop_last());
    }
}

/// Letting go of the hotkey activates it right after it was pressed, and neither after another key
/// was pressed, nor a second time, nor before it was pressed at all. It calls the same function
/// every time.
pub proof fn law_hotkey_acts_on_release<F: FnMut()>(
    f: F,
    fresh: ActivateOnRelease<F>,
    pressed: &mut ActivateOnRelease<F>,
    interrupted: &mut ActivateOnRelease<F>,
    released: &mut ActivateOnRelease<F>,
    activated: bool,
)
    requires
        call_ensures(ActivateOnRelease::<F>::new, (f,), fresh),
        call_ensures(ActivateOnRelease::<F>::await_release, (pressed,), ()),
        call_ensures(ActivateOnRelease::<F>::interrupt, (interrupted,), ()),
        call_ensures(ActivateOnRelease::<F>::maybe_activate, (released,), activated),
    ensures
        fresh.function() == f,
        final(pressed).function() == old(pressed).function(),
        final(interrupted).function() == old(interrupted).function(),
        final(released).function() == old(released).function(),
        *old(released) == *final(pressed) ==> activated,
        *old(released) == *final(interrupted) ==> !activated,
        *old(released) == fresh ==> !activated,
        activated ==> call_ensures(old(released).function(), (), ()),
        !final(released).armed(),
{
}

} // verus!
