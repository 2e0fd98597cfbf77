//! What the bootstrap sequence guarantees of the store: a model of the
//! migration phase (the version it leaves, the statements it runs), the laws
//! of that model, and the laws that tie runs of the state machine to it.
use vstd::prelude::*;

use crate::migrate::{
    fits, ok_word, same_upper, Action, Bootstrap, BootstrapError, Event, Stage,
};
use crate::script::canonical;

verus! {

/// The stored version after each step of `steps` has run, one transaction
/// each, on a store at `stored`: a step runs where its version is above the
/// version that its transaction reads, and then writes its own.
pub open spec fn version_after(stored: u32, steps: Seq<(u32, Seq<char>)>) -> u32
    decreases steps.len(),
{
    if steps.len() == 0 {
        stored
    } else {
        let v = steps[0].0;
        version_after(if v > stored { v } else { stored }, steps.drop_first())
    }
}

/// The steps whose statements run, in the order they run, when `steps` are
/// applied to a store at `stored`.
pub open spec fn applied(stored: u32, steps: Seq<(u32, Seq<char>)>) -> Seq<(u32, Seq<char>)>
    decreases steps.len(),
{
    if steps.len() == 0 {
        seq![]
    } else if steps[0].0 > stored {
        seq![steps[0]] + applied(steps[0].0, steps.drop_first())
    } else {
        applied(stored, steps.drop_first())
    }
}

proof fn lemma_after_bounds(stored: u32, steps: Seq<(u32, Seq<char>)>)
    ensures
        version_after(stored, steps) >= stored,
        forall|k: int| 0 <= k < steps.len() ==> version_after(stored, steps) >= #[trigger] steps[k].0,
    decreases steps.len(),
{
    if steps.len() > 0 {
        let v = steps[0].0;
        let next = if v > stored { v } else { stored };
        lemma_after_bounds(next, steps.drop_first());
        assert forall|k: int| 0 <= k < steps.len() implies version_after(stored, steps)
            >= #[trigger] steps[k].0 by {
            if k > 0 {
                assert(steps[k] == steps.drop_first()[k - 1]);
            }
        }
    }
}

proof fn lemma_above_all(stored: u32, steps: Seq<(u32, Seq<char>)>)
    requires
        forall|k: int| 0 <= k < steps.len() ==> stored >= #[trigger] steps[k].0,
    ensures
        version_after(stored, steps) == stored,
        applied(stored, steps) == Seq::<(u32, Seq<char>)>::empty(),
    decreases steps.len(),
{
    if steps.len() > 0 {
        assert forall|k: int| 0 <= k < steps.drop_first().len() implies stored
            >= #[trigger] steps.drop_first()[k].0 by {
            assert(steps.drop_first()[k] == steps[k + 1]);
        }
        lemma_above_all(stored, steps.drop_first());
    }
}

/// Running the steps a second time, on the store that the first run left,
/// runs no statement and leaves the stored version where the first run left it.
pub proof fn law_idempotent(stored: u32, steps: Seq<(u32, Seq<char>)>)
    ensures
        version_after(version_after(stored, steps), steps) == version_after(stored, steps),
        applied(version_after(stored, steps), steps) == Seq::<(u32, Seq<char>)>::empty(),
{
    lemma_after_bounds(stored, steps);
    lemma_above_all(version_after(stored, steps), steps);
}

/// The stored version never decreases: not over a run of any steps, nor
/// over any part of one that a failure cut short.
pub proof fn law_monotone(stored: u32, steps: Seq<(u32, Seq<char>)>, k: int)
    requires
        0 <= k <= steps.len(),
    ensures
        version_after(stored, steps) >= stored,
        version_after(stored, steps.take(k)) >= stored,
{
    lemma_after_bounds(stored, steps);
    lemma_after_bounds(stored, steps.take(k));
}

/// A version is written only in the transaction of a step whose version is
/// above the version read in that same transaction.
pub proof fn law_stamp_raises(b: Bootstrap, stored: u32, new: Bootstrap, r: Action)
    requires
        b.wf(),
        b.stage == Stage::Rereading,
        b.transition(Event::Version { version: stored }, new, r),
    ensures
        r is Execute ==> b.current().0 > stored && new.current().0 == b.current().0,
        !(r is Execute) ==> r is Commit && b.current().0 <= stored,
{
}

proof fn lemma_skipped_keep_version(stored: u32, steps: Seq<(u32, Seq<char>)>)
    requires
        applied(stored, steps) == Seq::<(u32, Seq<char>)>::empty(),
    ensures
        version_after(stored, steps) == stored,
    decreases steps.len(),
{
    if steps.len() > 0 {
        if steps[0].0 > stored {
            assert(applied(stored, steps).len() > 0);
        } else {
            lemma_skipped_keep_version(stored, steps.drop_first());
        }
    }
}

/// A store whose integrity scan reports anything but `ok`, in any case,
/// stops the run before any step: the machine fails and takes no further
/// event, so no statement runs and no version is written.
pub proof fn law_integrity_gate(b: Bootstrap, text: String, new: Bootstrap, r: Action)
    requires
        b.wf(),
        b.stage == Stage::CheckingIntegrity,
        !same_upper(text@, ok_word()),
        b.transition(Event::Text { text }, new, r),
    ensures
        new.stage == Stage::Failed,
        r matches Action::Abort { error: BootstrapError::Integrity { report } } && report == text,
        forall|ev: Event| !fits(new.stage, ev),
{
}

/// A script without steps leaves nothing to apply: once the version has
/// been read the run is finished, and succeeds.
pub proof fn law_no_steps_finishes(b: Bootstrap, stored: u32, new: Bootstrap, r: Action)
    requires
        b.wf(),
        b.stage == Stage::ReadingVersion,
        b.steps@.len() == 0,
        b.transition(Event::Version { version: stored }, new, r),
    ensures
        new.stage == Stage::Finished,
        r is Finish,
{
}


/// The store through the migration phase, after the actions `acts`, from a
/// committed version `committed`: the committed version, and the version
/// that the open transaction holds.
pub open spec fn store_after(committed: u32, acts: Seq<Action>) -> (u32, u32)
    decreases acts.len(),
{
    if acts.len() == 0 {
        (committed, committed)
    } else {
        let (c, t) = store_after(committed, acts.drop_last());
        match acts.last() {
            Action::Begin => (c, c),
            Action::StampVersion { version } => (c, version),
            Action::Commit => (t, t),
            _ => (c, t),
        }
    }
}

/// The statements that the actions `acts` execute, in order.
pub open spec fn executed(acts: Seq<Action>) -> Seq<Seq<char>>
    decreases acts.len(),
{
    if acts.len() == 0 {
        seq![]
    } else {
        match acts.last() {
            Action::Execute { statement } => executed(acts.drop_last()).push(statement@),
            _ => executed(acts.drop_last()),
        }
    }
}

/// What a store that accepts every statement answers to `a`, where its open
/// transaction holds the version `staged`.
pub open spec fn truthful(a: Action, staged: u32) -> Event {
    match a {
        Action::ReadVersion => Event::Version { version: staged },
        _ => Event::Succeeded,
    }
}

/// The canonical statements of the steps that run.
pub open spec fn applied_statements(stored: u32, steps: Seq<(u32, Seq<char>)>) -> Seq<Seq<char>> {
    applied(stored, steps).map_values(|p: (u32, Seq<char>)| canonical(p.1))
}

proof fn lemma_fold_push(c: u32, s: Seq<(u32, Seq<char>)>, x: (u32, Seq<char>))
    ensures
        version_after(c, s.push(x)) == (if x.0 > version_after(c, s) {
            x.0
        } else {
            version_after(c, s)
        }),
        applied(c, s.push(x)) == (if x.0 > version_after(c, s) {
            applied(c, s).push(x)
        } else {
            applied(c, s)
        }),
    decreases s.len(),
{
    let sx = s.push(x);
    if s.len() == 0 {
        let e = Seq::<(u32, Seq<char>)>::empty();
        assert(sx.len() == 1 && sx[0] == x);
        assert(sx.drop_first() =~= e);
        assert(version_after(c, s) == c);
        assert(applied(c, s) == e);
        assert(version_after(c, sx) == version_after(if x.0 > c { x.0 } else { c }, sx.drop_first()));
        assert(version_after(if x.0 > c { x.0 } else { c }, e) == if x.0 > c { x.0 } else { c });
        if x.0 > c {
            assert(applied(c, sx) == seq![x] + applied(x.0, e));
            assert(applied(x.0, e) == e);
            assert(seq![x] + e =~= e.push(x));
        } else {
            assert(applied(c, sx) == applied(c, e));
        }
    } else {
        let v = s[0].0;
        let next = if v > c { v } else { c };
        assert(sx[0] == s[0]);
        assert(sx.drop_first() =~= s.drop_first().push(x));
        lemma_fold_push(next, s.drop_first(), x);
        assert(version_after(c, sx) == version_after(next, sx.drop_first()));
        assert(version_after(c, s) == version_after(next, s.drop_first()));
        if v > c {
            assert(applied(c, sx) == seq![s[0]] + applied(next, sx.drop_first()));
            assert(applied(c, s) == seq![s[0]] + applied(next, s.drop_first()));
            assert(seq![s[0]] + applied(next, s.drop_first()).push(x) =~= (seq![s[0]] + applied(
                next,
                s.drop_first(),
            )).push(x));
        } else {
            assert(applied(c, sx) == applied(next, sx.drop_first()));
            assert(applied(c, s) == applied(next, s.drop_first()));
        }
    }
}

/// Where a run of the migration phase stands after `j` transitions: the
/// store and the statements run so far agree with the first `index` steps.
pub open spec fn run_inv(
    b: Bootstrap,
    steps: Seq<(u32, Seq<char>)>,
    c0: u32,
    acts: Seq<Action>,
) -> bool {
    let i = b.index as int;
    let st = store_after(c0, acts);
    let ran = executed(acts);
    let before = version_after(c0, steps.take(i));
    &&& b.wf()
    &&& b.step_seq() == steps
    &&& match b.stage {
        Stage::Beginning | Stage::Rereading | Stage::Finished => st == (before, before) && ran
            == applied_statements(c0, steps.take(i)) && (b.stage == Stage::Finished ==> i
            == steps.len()),
        Stage::Executing => st == (before, before) && steps[i].0 > before && ran
            == applied_statements(c0, steps.take(i)).push(canonical(steps[i].1)),
        Stage::Stamping => st == (before, steps[i].0) && steps[i].0 > before && ran
            == applied_statements(c0, steps.take(i + 1)),
        Stage::Committing => st.0 == st.1 && st.0 == version_after(c0, steps.take(i + 1)) && ran
            == applied_statements(c0, steps.take(i + 1)),
        _ => false,
    }
}

/// A trace of the migration phase: states `bs`, the events `evs` handed to
/// them and the actions `acts` they returned, where the store answered
/// truthfully from the committed version `c0`.
pub open spec fn truthful_run(
    bs: Seq<Bootstrap>,
    evs: Seq<Event>,
    acts: Seq<Action>,
    c0: u32,
) -> bool {
    &&& bs.len() == evs.len() + 1
    &&& acts.len() == evs.len()
    &&& evs.len() > 0
    &&& bs[0].wf()
    &&& bs[0].stage == Stage::ReadingVersion
    &&& evs[0] == Event::Version { version: c0 }
    &&& forall|j: int| 0 <= j < evs.len() ==> #[trigger] fits(bs[j].stage, evs[j])
    &&& forall|j: int| 0 <= j < evs.len() ==> bs[j].transition(evs[j], bs[j + 1], #[trigger] acts[j])
    &&& forall|j: int| 1 <= j < evs.len() ==> #[trigger] evs[j] == truthful(acts[j - 1], store_after(c0, acts.take(j)).1)
    &&& forall|j: int| 0 <= j < bs.len() ==> #[trigger] bs[j].wf()
}

proof fn lemma_run_prefix(bs: Seq<Bootstrap>, evs: Seq<Event>, acts: Seq<Action>, c0: u32, j: int)
    requires
        truthful_run(bs, evs, acts, c0),
        1 <= j <= evs.len(),
    ensures
        run_inv(bs[j], bs[0].step_seq(), c0, acts.take(j)),
    decreases j,
{
    let steps = bs[0].step_seq();
    let a0 = acts[0];
    assert(bs[0].transition(evs[0], bs[1], acts[0]));
    assert(fits(bs[0].stage, evs[0]));
    if j == 1 {
        let t = acts.take(1);
        assert(t.drop_last() =~= Seq::<Action>::empty());
        assert(steps.take(0) =~= Seq::<(u32, Seq<char>)>::empty());
        assert(applied_statements(c0, steps.take(0)) =~= Seq::<Seq<char>>::empty());
        assert(version_after(c0, steps.take(0)) == c0);
        assert(bs[1].index == 0);
        assert(t.last() == a0);
        assert(a0 is Begin || a0 is Finish);
        assert(store_after(c0, t.drop_last()) == (c0, c0));
        assert(store_after(c0, t) == (c0, c0));
        assert(executed(t.drop_last()) == Seq::<Seq<char>>::empty());
        assert(executed(t) == Seq::<Seq<char>>::empty());
    } else {
        lemma_run_prefix(bs, evs, acts, c0, j - 1);
        let k = j - 1;
        let b = bs[k];
        let n = bs[k + 1];
        let i = b.index as int;
        let ak = acts[k];
        assert(b.transition(evs[k], n, acts[k]));
        assert(fits(b.stage, evs[k]));
        assert(evs[k] == truthful(acts[k - 1], store_after(c0, acts.take(k)).1));
        assert(acts.take(j).drop_last() =~= acts.take(k));
        assert(acts.take(j).last() == acts[k]);
        if b.stage != Stage::Finished {
            assert(steps.take(i + 1) =~= steps.take(i).push(steps[i]));
            lemma_fold_push(c0, steps.take(i), steps[i]);
            assert(applied_statements(c0, steps.take(i).push(steps[i])) =~= (if steps[i].0
                > version_after(c0, steps.take(i)) {
                applied_statements(c0, steps.take(i)).push(canonical(steps[i].1))
            } else {
                applied_statements(c0, steps.take(i))
            }));
        }
    }
}

/// A migration run that a store answers truthfully, and that finishes,
/// leaves the store at `version_after` its starting version and runs
/// exactly the steps of `applied`, in script order, each in canonical form.
pub proof fn law_run_applies_pending(
    bs: Seq<Bootstrap>,
    evs: Seq<Event>,
    acts: Seq<Action>,
    c0: u32,
)
    requires
        truthful_run(bs, evs, acts, c0),
        acts.last() is Finish,
    ensures
        store_after(c0, acts).0 == version_after(c0, bs[0].step_seq()),
        executed(acts) == applied_statements(c0, bs[0].step_seq()),
{
    let m = evs.len() as int;
    lemma_run_prefix(bs, evs, acts, c0, m);
    assert(acts.take(m) =~= acts);
    let b = bs[m - 1];
    let al = acts[m - 1];
    assert(b.transition(evs[m - 1], bs[m], acts[m - 1]));
    assert(fits(b.stage, evs[m - 1]));
    if m > 1 {
        lemma_run_prefix(bs, evs, acts, c0, m - 1);
    }
    let steps = bs[0].step_seq();
    assert(steps.take(steps.len() as int) =~= steps);
}


/// Bootstrapping twice: a second finished run of the same steps, from the
/// version that a first finished run left, runs no statement and leaves the
/// stored version as the first run left it.
pub proof fn law_second_run_is_noop(
    bs1: Seq<Bootstrap>,
    evs1: Seq<Event>,
    acts1: Seq<Action>,
    bs2: Seq<Bootstrap>,
    evs2: Seq<Event>,
    acts2: Seq<Action>,
    c0: u32,
)
    requires
        truthful_run(bs1, evs1, acts1, c0),
        acts1.last() is Finish,
        truthful_run(bs2, evs2, acts2, store_after(c0, acts1).0),
        acts2.last() is Finish,
        bs2[0].step_seq() == bs1[0].step_seq(),
    ensures
        executed(acts2) == Seq::<Seq<char>>::empty(),
        store_after(store_after(c0, acts1).0, acts2).0 == store_after(c0, acts1).0,
{
    let steps = bs1[0].step_seq();
    law_run_applies_pending(bs1, evs1, acts1, c0);
    law_run_applies_pending(bs2, evs2, acts2, store_after(c0, acts1).0);
    law_idempotent(c0, steps);
    assert(applied_statements(version_after(c0, steps), steps) =~= Seq::<Seq<char>>::empty());
}

/// A finished run never lowers the stored version.
pub proof fn law_run_monotone(bs: Seq<Bootstrap>, evs: Seq<Event>, acts: Seq<Action>, c0: u32)
    requires
        truthful_run(bs, evs, acts, c0),
        acts.last() is Finish,
    ensures
        store_after(c0, acts).0 >= c0,
{
    law_run_applies_pending(bs, evs, acts, c0);
    law_monotone(c0, bs[0].step_seq(), 0);
}


/// A step whose statement or version write fails commits nothing: after a
/// truthful run up to that step, the machine aborts with the transaction
/// uncommitted, and the committed version is the one that the steps before
/// it left; the version the run started at where none of them ran a
/// statement.
pub proof fn law_failed_step_keeps_version(
    bs: Seq<Bootstrap>,
    evs: Seq<Event>,
    acts: Seq<Action>,
    c0: u32,
    detail: String,
    new: Bootstrap,
    r: Action,
)
    requires
        truthful_run(bs, evs, acts, c0),
        bs.last().stage == Stage::Executing || bs.last().stage == Stage::Stamping,
        bs.last().transition(Event::Failed { detail }, new, r),
    ensures
        r is Abort,
        new.stage == Stage::Failed,
        forall|ev: Event| !fits(new.stage, ev),
        store_after(c0, acts).0 == version_after(
            c0,
            bs[0].step_seq().take(bs.last().index as int),
        ),
        applied(c0, bs[0].step_seq().take(bs.last().index as int)) == Seq::<
            (u32, Seq<char>),
        >::empty() ==> store_after(c0, acts).0 == c0,
{
    let m = evs.len() as int;
    lemma_run_prefix(bs, evs, acts, c0, m);
    assert(acts.take(m) =~= acts);
    let done = bs[0].step_seq().take(bs.last().index as int);
    if applied(c0, done) == Seq::<(u32, Seq<char>)>::empty() {
        lemma_skipped_keep_version(c0, done);
    }
}

} // verus!
