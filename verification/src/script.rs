//! Policies around the filter script: when a worker reloads it, and what
//! moves on when the script defines no hook for a message.

use vstd::prelude::*;

verus! {

/// The global function that filters requests.
pub const REQUEST_HOOK: &'static str = "on_http_request";

/// The global function that filters responses.
pub const RESPONSE_HOOK: &'static str = "on_http_response";

/// A file time, as whole seconds from the Unix epoch (negative before it)
/// and the nanoseconds into that second.
#[derive(Debug, Clone, Copy, PartialEq, Eq, Structural)]
pub struct Stamp {
    pub secs: i64,
    pub nanos: u32,
}

/// `a` is strictly later than `b`.
pub open spec fn later(a: Stamp, b: Stamp) -> bool {
    a.secs > b.secs || (a.secs == b.secs && a.nanos > b.nanos)
}

/// The instant a stamp stands for, in nanoseconds from the Unix epoch.
pub open spec fn instant(s: Stamp) -> int {
    s.secs * 1_000_000_000 + s.nanos
}

/// `later` is the order of instants: for stamps whose nanoseconds are
/// within a second, `a` is later than `b` exactly when its instant is
/// greater; a greater second is always later, and within the same second
/// the greater nanoseconds are.
pub proof fn law_later_is_chronological(a: Stamp, b: Stamp)
    requires
        a.nanos < 1_000_000_000,
        b.nanos < 1_000_000_000,
    ensures
        later(a, b) <==> instant(a) > instant(b),
        a.secs > b.secs ==> later(a, b),
        a.secs == b.secs ==> (later(a, b) <==> a.nanos > b.nanos),
        !later(a, a),
        later(a, b) ==> !later(b, a),
{
    if a.secs > b.secs {
        assert(a.secs * 1_000_000_000 >= b.secs * 1_000_000_000 + 1_000_000_000) by (nonlinear_arith)
            requires
                a.secs > b.secs,
        ;
    } else if a.secs < b.secs {
        assert(b.secs * 1_000_000_000 >= a.secs * 1_000_000_000 + 1_000_000_000) by (nonlinear_arith)
            requires
                a.secs < b.secs,
        ;
    }
}

/// Tracks the script file's time as of its last load.
#[derive(Debug)]
pub struct ScriptWatch {
    loaded: Stamp,
}

impl ScriptWatch {
    pub closed spec fn loaded_view(&self) -> Stamp {
        self.loaded
    }

    /// A watch for a script loaded when the file had time `loaded`.
    pub fn new(loaded: Stamp) -> (w: ScriptWatch)
        ensures
            w.loaded_view() == loaded,
    {
        ScriptWatch { loaded }
    }

    /// The file time as of the last load.
    pub fn loaded(&self) -> (s: Stamp)
        ensures
            s == self.loaded_view(),
    {
        self.loaded
    }

    /// Called before each message with the file's current time: the script
    /// is to be reloaded iff that time is strictly later than the one of the
    /// last load, which then becomes the current time.
    pub fn observe(&mut self, now: Stamp) -> (reload: bool)
        ensures
            reload == later(now, old(self).loaded_view()),
            reload == (now.secs > old(self).loaded_view().secs || (now.secs == old(
                self,
            ).loaded_view().secs && now.nanos > old(self).loaded_view().nanos)),
            final(self).loaded_view() == (if reload {
                now
            } else {
                old(self).loaded_view()
            }),
    {
        if now.secs > self.loaded.secs || (now.secs == self.loaded.secs && now.nanos
            > self.loaded.nanos) {
            self.loaded = now;
            true
        } else {
            false
        }
    }
}

/// The load time a watch holds after observing `times` in order.
pub open spec fn after_observing(loaded: Stamp, times: Seq<Stamp>) -> Stamp
    decreases times.len(),
{
    if times.len() == 0 {
        loaded
    } else {
        let before = after_observing(loaded, times.drop_last());
        if later(times.last(), before) {
            times.last()
        } else {
            before
        }
    }
}

/// A watch holds the latest of the times it started with and observed:
/// no observed time is later, and it is one of them.
pub proof fn law_watch_holds_latest(loaded: Stamp, times: Seq<Stamp>)
    ensures
        !later(loaded, after_observing(loaded, times)),
        forall|i: int| 0 <= i < times.len() ==> !later(#[trigger] times[i], after_observing(loaded, times)),
        after_observing(loaded, times) == loaded || times.contains(after_observing(loaded, times)),
    decreases times.len(),
{
    if times.len() > 0 {
        let init = times.drop_last();
        law_watch_holds_latest(loaded, init);
        assert forall|i: int| 0 <= i < times.len() implies !later(
            #[trigger] times[i],
            after_observing(loaded, times),
        ) by {
            if i < times.len() - 1 {
                assert(times[i] == init[i]);
            }
        }
        if after_observing(loaded, times) != loaded && after_observing(loaded, times) != times.last() {
            let k = choose|k: int| 0 <= k < init.len() && init[k] == after_observing(loaded, init);
            assert(times[k] == init[k]);
        } else if after_observing(loaded, times) == times.last() {
            assert(times[times.len() - 1] == times.last());
        }
    }
}

/// Observing the same time twice in a row reloads at most once.
pub proof fn law_no_reload_twice(loaded: Stamp, now: Stamp)
    ensures
        !later(now, if later(now, loaded) { now } else { loaded }),
{
}

/// What the script did with a message handed to one of its hooks.
pub enum HookResult<T> {
    /// The script defines no such hook.
    Missing,
    /// The hook returned this message.
    Returned(T),
}

impl<T> HookResult<T> {
    /// The message that moves on: the hook's result, or the original when
    /// the script defines no hook.
    pub fn resolve(self, original: T) -> (r: T)
        ensures
            r == (match self {
                HookResult::Missing => original,
                HookResult::Returned(v) => v,
            }),
    {
        match self {
            HookResult::Missing => original,
            HookResult::Returned(v) => v,
        }
    }
}

} // verus!
