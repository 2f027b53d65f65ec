//! What has to be in place before the JVM can be called.
use vstd::prelude::*;

verus! {

/// Which of the handles into the JVM are stored.
#[derive(Debug, Clone, Copy, PartialEq, Eq, Structural)]
pub struct JniGlobals {
    /// The JVM itself.
    pub jvm: bool,
    /// The central manager's class.
    pub central_class: bool,
    /// The peripheral manager's class.
    pub peripheral_class: bool,
}

impl JniGlobals {
    /// Nothing is stored.
    pub open spec fn empty() -> Self {
        JniGlobals { jvm: false, central_class: false, peripheral_class: false }
    }

    /// Everything is stored.
    pub open spec fn full() -> Self {
        JniGlobals { jvm: true, central_class: true, peripheral_class: true }
    }

    /// Everything that the accessors of the handles need is in place.
    pub open spec fn initialized(self) -> bool {
        self.jvm && self.central_class && self.peripheral_class
    }

    /// Initialising was asked for, and came to its end where `returned`. Where
    /// it did not, nothing was stored.
    pub open spec fn init(self, returned: bool) -> Self {
        if self.jvm || !returned {
            self
        } else {
            JniGlobals::full()
        }
    }

    /// Initialising was asked for once for each of `calls`, which says whether
    /// it came to its end.
    pub open spec fn after(self, calls: Seq<bool>) -> Self
        decreases calls.len(),
    {
        if calls.len() == 0 {
            self
        } else {
            self.after(calls.drop_last()).init(calls.last())
        }
    }

    /// Nothing is stored.
    pub fn new() -> (globals: Self)
        ensures
            globals == JniGlobals::empty(),
    {
        JniGlobals { jvm: false, central_class: false, peripheral_class: false }
    }

    /// The classes were looked up and the managers have their context: the
    /// handles are stored.
    pub fn store(&mut self)
        requires
            !old(self).jvm,
        ensures
            *final(self) == old(self).init(true),
    {
        self.central_class = true;
        self.peripheral_class = true;
        self.jvm = true;
    }
}

/// Whether everything is in place: without it the accessors of the handles
/// panic, so the role constructors ask this first.
#[must_use]
pub fn is_initialized(globals: &JniGlobals) -> (initialized: bool)
    ensures
        initialized == globals.initialized(),
{
    globals.jvm && globals.central_class && globals.peripheral_class
}

/// What initialising does with a JVM that it is handed.
#[derive(Debug, Clone, Copy, PartialEq, Eq, Structural)]
pub enum JvmInit {
    /// Look the classes up, hand the managers their context, store the handles.
    SetUp,
    /// A JVM is stored already: keep it.
    Keep,
}

/// What initialising does: once a JVM is stored, nothing.
pub fn init_jvm(globals: &JniGlobals) -> (init: JvmInit)
    ensures
        init == (if globals.jvm {
            JvmInit::Keep
        } else {
            JvmInit::SetUp
        }),
        init is Keep ==> globals.init(true) == *globals,
{
    if globals.jvm {
        JvmInit::Keep
    } else {
        JvmInit::SetUp
    }
}

/// Everything is in place exactly after initialising has come to its end once,
/// whatever came of it the other times, and stays in place whatever comes of it
/// later.
pub proof fn law_initialized_once_and_for_all(calls: Seq<bool>, later: Seq<bool>)
    ensures
        JniGlobals::empty().after(calls).initialized() <==> calls.contains(true),
        JniGlobals::empty().after(calls).initialized() ==> JniGlobals::empty().after(
            calls + later,
        ).initialized(),
    decreases calls.len() + later.len(),
{
    let start = JniGlobals::empty();
    lemma_all_or_nothing(calls);
    if calls.len() > 0 {
        let earlier = calls.drop_last();
        law_initialized_once_and_for_all(earlier, Seq::empty());
        if calls.contains(true) && !calls.last() {
            let i = choose|i: int| 0 <= i < calls.len() && calls[i] == true;
            assert(earlier[i]);
        }
        if earlier.contains(true) {
            let i = choose|i: int| 0 <= i < earlier.len() && earlier[i] == true;
            assert(calls[i]);
        }
        if calls.last() {
            assert(calls[calls.len() - 1]);
        }
        lemma_all_or_nothing(earlier);
    }
    if later.len() == 0 {
        assert(calls + later =~= calls);
    } else {
        law_initialized_once_and_for_all(calls, later.drop_last());
        assert((calls + later).drop_last() =~= calls + later.drop_last());
    }
}

proof fn lemma_all_or_nothing(calls: Seq<bool>)
    ensures
        ({
            let now = JniGlobals::empty().after(calls);
            now == JniGlobals::empty() || now == JniGlobals::full()
        }),
    decreases calls.len(),
{
    if calls.len() > 0 {
        lemma_all_or_nothing(calls.drop_last());
    }
}

} // verus!
