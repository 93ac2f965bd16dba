use vstd::prelude::*;
use crate::command::{Command, CommandView};
use crate::native::representable;
use crate::stdio::Stdio;

verus! {

/// The descriptor reached from `c` by adding the strings of `xs` one at a
/// time, in their order.
pub open spec fn args_one_by_one(c: CommandView, xs: Seq<Seq<u8>>) -> CommandView
    decreases xs.len(),
{
    if xs.len() == 0 {
        c
    } else {
        args_one_by_one(c, xs.drop_last()).with_arg(xs.last())
    }
}

/// The argument list of a descriptor is never empty, and its first entry is
/// the program.
pub proof fn lemma_program_is_first_argument(c: Command)
    requires
        c.wf(),
    ensures
        c@.arguments.len() > 0,
        c@.arguments[0] == c@.program,
{
}

/// A fresh descriptor is valid, and every change of it that the builder
/// makes with representable strings keeps it valid.
pub proof fn lemma_valid_is_kept(
    c: CommandView,
    p: Seq<u8>,
    xs: Seq<Seq<u8>>,
    ambient: Map<Seq<u8>, Seq<u8>>,
    k: Seq<u8>,
    v: Seq<u8>,
    cfg: Stdio,
)
    requires
        c.valid(),
        representable(p),
        forall|i: int| 0 <= i < xs.len() ==> representable(#[trigger] xs[i]),
    ensures
        CommandView::initial(p).valid(),
        c.with_arg(p).valid(),
        c.with_args(xs).valid(),
        c.materialized(ambient).valid(),
        c.with_env(ambient, k, v).valid(),
        c.without_env(ambient, k).valid(),
        c.with_env_cleared().valid(),
        c.with_current_dir(p).valid(),
        c.with_stdin(cfg).valid(),
        c.with_stdout(cfg).valid(),
        c.with_stderr(cfg).valid(),
{
}

/// Adding arguments one at a time gives what adding them together gives:
/// the old list followed by the new strings in call order, and nothing else
/// changed.
pub proof fn lemma_args_in_call_order(c: CommandView, xs: Seq<Seq<u8>>)
    ensures
        args_one_by_one(c, xs) == c.with_args(xs),
        args_one_by_one(c, xs).arguments == c.arguments + xs,
    decreases xs.len(),
{
    if xs.len() > 0 {
        lemma_args_in_call_order(c, xs.drop_last());
        assert((c.arguments + xs.drop_last()).push(xs.last()) =~= c.arguments + xs);
    }
}

/// After construction and any run of added arguments, what follows the
/// program in the argument list is exactly those arguments in call order.
pub proof fn lemma_args_tail(p: Seq<u8>, xs: Seq<Seq<u8>>)
    ensures
        args_one_by_one(CommandView::initial(p), xs).arguments.len() == xs.len() + 1,
        args_one_by_one(CommandView::initial(p), xs).arguments[0] == p,
        args_one_by_one(CommandView::initial(p), xs).arguments.skip(1) == xs,
{
    lemma_args_in_call_order(CommandView::initial(p), xs);
}

/// A variable that was set is read back with its value, whatever the ambient
/// environment is at the time of reading.
pub proof fn lemma_env_set_then_read(
    c: CommandView,
    ambient: Map<Seq<u8>, Seq<u8>>,
    later: Map<Seq<u8>, Seq<u8>>,
    k: Seq<u8>,
    v: Seq<u8>,
)
    ensures
        c.with_env(ambient, k, v).effective_env(later).contains_key(k),
        c.with_env(ambient, k, v).effective_env(later)[k] == v,
{
}

/// Of two values set for one variable the later one stays.
pub proof fn lemma_env_last_write_wins(
    c: CommandView,
    ambient: Map<Seq<u8>, Seq<u8>>,
    later: Map<Seq<u8>, Seq<u8>>,
    k: Seq<u8>,
    v: Seq<u8>,
    v2: Seq<u8>,
)
    ensures
        c.with_env(ambient, k, v).with_env(later, k, v2).effective_env(later)[k] == v2,
        c.with_env(ambient, k, v).with_env(later, k, v2) == c.with_env(ambient, k, v2),
{
    assert(c.effective_env(ambient).insert(k, v).insert(k, v2) =~= c.effective_env(ambient).insert(
        k,
        v2,
    ));
}

/// A variable that was set and then removed is absent.
pub proof fn lemma_env_remove_after_set(
    c: CommandView,
    ambient: Map<Seq<u8>, Seq<u8>>,
    later: Map<Seq<u8>, Seq<u8>>,
    k: Seq<u8>,
    v: Seq<u8>,
)
    ensures
        !c.with_env(ambient, k, v).without_env(later, k).effective_env(later).contains_key(k),
{
}

/// Setting or removing one variable leaves every other variable as it was in
/// the effective environment before: on an inherited environment, as it is
/// in the ambient one.
pub proof fn lemma_env_change_keeps_others(
    c: CommandView,
    ambient: Map<Seq<u8>, Seq<u8>>,
    later: Map<Seq<u8>, Seq<u8>>,
    k: Seq<u8>,
    v: Seq<u8>,
    other: Seq<u8>,
)
    requires
        other != k,
    ensures
        c.with_env(ambient, k, v).effective_env(later).contains_key(other) == c.effective_env(
            ambient,
        ).contains_key(other),
        c.without_env(ambient, k).effective_env(later).contains_key(other) == c.effective_env(
            ambient,
        ).contains_key(other),
        c.effective_env(ambient).contains_key(other) ==> {
            &&& c.with_env(ambient, k, v).effective_env(later)[other] == c.effective_env(ambient)[other]
            &&& c.without_env(ambient, k).effective_env(later)[other] == c.effective_env(ambient)[other]
        },
        c.environment is None ==> c.effective_env(ambient) == ambient,
{
}

/// Materializing alone changes nothing that a spawn at the same moment
/// would see, and happens once: a second snapshot has no effect.
pub proof fn lemma_materialize_once(
    c: CommandView,
    ambient: Map<Seq<u8>, Seq<u8>>,
    later: Map<Seq<u8>, Seq<u8>>,
)
    ensures
        c.materialized(ambient).effective_env(later) == c.effective_env(ambient),
        c.materialized(ambient).materialized(later) == c.materialized(ambient),
{
}

/// After clearing, the environment is empty whatever was set before and
/// whatever the ambient environment holds; a variable set afterwards is the
/// only one.
pub proof fn lemma_env_clear_isolates(
    c: CommandView,
    ambient: Map<Seq<u8>, Seq<u8>>,
    k: Seq<u8>,
    v: Seq<u8>,
)
    ensures
        c.with_env_cleared().effective_env(ambient) == Map::<Seq<u8>, Seq<u8>>::empty(),
        c.with_env_cleared().with_env(ambient, k, v).effective_env(ambient) == Map::<
            Seq<u8>,
            Seq<u8>,
        >::empty().insert(k, v),
        forall|other: Seq<u8>|
            other != k ==> !c.with_env_cleared().with_env(ambient, k, v).effective_env(
                ambient,
            ).contains_key(other),
{
}

/// Removing a variable twice is removing it once.
pub proof fn lemma_env_remove_idempotent(
    c: CommandView,
    ambient: Map<Seq<u8>, Seq<u8>>,
    later: Map<Seq<u8>, Seq<u8>>,
    k: Seq<u8>,
)
    ensures
        c.without_env(ambient, k).without_env(later, k) == c.without_env(ambient, k),
{
    assert(c.effective_env(ambient).remove(k).remove(k) =~= c.effective_env(ambient).remove(k));
}

/// Clearing the environment twice is clearing it once.
pub proof fn lemma_env_clear_idempotent(c: CommandView)
    ensures
        c.with_env_cleared().with_env_cleared() == c.with_env_cleared(),
{
}

/// Overriding one standard stream leaves the other two as they were, and
/// touches nothing else of the descriptor.
pub proof fn lemma_stdio_independent(c: CommandView, cfg: Stdio)
    ensures
        c.with_stdin(cfg).stdout == c.stdout && c.with_stdin(cfg).stderr == c.stderr,
        c.with_stdout(cfg).stdin == c.stdin && c.with_stdout(cfg).stderr == c.stderr,
        c.with_stderr(cfg).stdin == c.stdin && c.with_stderr(cfg).stdout == c.stdout,
        CommandView::initial(c.program).with_stdout(cfg).stdin is None,
        CommandView::initial(c.program).with_stdout(cfg).stderr is None,
{
}

} // verus!
