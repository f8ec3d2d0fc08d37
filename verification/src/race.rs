//! Two publishes of one package that run at the same time.
//!
//! Nothing orders the requests of the two. The only guard is the conflict
//! token of the ledger: an update with a stale token is refused. The laws
//! here say what that guard is good for.

use vstd::prelude::*;
use crate::error::RegistryError;
use crate::ledger::spec_appended;
use crate::model::{contents, publish_outcome, serve, StoreModel, TokenScheme};
use crate::normalize::spec_normalize;
use crate::path::{
    lemma_archive_path_injective, lemma_ledger_is_no_archive, spec_archive_path,
    spec_ledger_path, valid_name,
};
use crate::storage::{finished, spec_resume, spec_save_crate, ActionView, PublishView, StepView};
use crate::store::RequestView;

verus! {

/// One turn of a publish: the store serves the request that the publish
/// waits on, and the publish takes the reply. A finished publish stays as
/// it is.
pub open spec fn turn(step: StepView, store: StoreModel, scheme: TokenScheme) -> (
    StepView,
    StoreModel,
) {
    match step.action {
        ActionView::Ask(request) => {
            let (next, reply) = serve(store, request, scheme);
            (spec_resume(step.state, reply), next)
        },
        ActionView::Finish(_) => (step, store),
    }
}

/// Two publishes taking turns as a schedule says: `true` gives the turn to
/// the first, `false` to the second.
pub open spec fn interleave(
    first: StepView,
    second: StepView,
    store: StoreModel,
    scheme: TokenScheme,
    schedule: Seq<bool>,
) -> (StepView, StepView, StoreModel)
    decreases schedule.len(),
{
    if schedule.len() == 0 {
        (first, second, store)
    } else {
        let (a, b, s) = interleave(first, second, store, scheme, schedule.drop_last());
        if schedule.last() {
            let (a2, s2) = turn(a, s, scheme);
            (a2, b, s2)
        } else {
            let (b2, s2) = turn(b, s, scheme);
            (a, b2, s2)
        }
    }
}

/// An update that carries a stale conflict token is refused with `Conflict`
/// and leaves the store as it was; the publish that sent it ends with
/// `Conflict` and sends nothing more.
pub proof fn lemma_stale_token_conflicts(
    step: StepView,
    store: StoreModel,
    scheme: TokenScheme,
)
    requires
        step.state is WriteLedger,
        step.action matches ActionView::Ask(RequestView::Update { path, token, .. })
            && store.contains_key(path) && store[path].token != token,
    ensures
        turn(step, store, scheme) == (
            finished(Err(RegistryError::Conflict)),
            store,
        ),
{
}

/// The publish has written the ledger.
pub open spec fn has_written(step: StepView) -> bool {
    step.state is WriteArchive || step == finished(Ok(()))
}

/// One of two racing publishes: where it stands, and what it is to store.
pub struct Racer {
    pub step: StepView,
    pub archive_path: Seq<char>,
    pub record: Seq<u8>,
    pub archive: Seq<u8>,
}

/// The ledger after a record is added to what the store held before the
/// race.
pub open spec fn ledger_with(
    before: Map<Seq<char>, Seq<u8>>,
    ledger: Seq<char>,
    record: Seq<u8>,
) -> Seq<u8> {
    if before.contains_key(ledger) {
        spec_appended(before[ledger], record)
    } else {
        record
    }
}

/// What holds of one of two racing publishes of a package, `rival` being
/// the other one and `before` what the store held when the race began.
pub open spec fn in_race(
    me: Racer,
    rival: StepView,
    store: StoreModel,
    before: Map<Seq<char>, Seq<u8>>,
    ledger: Seq<char>,
) -> bool {
    let own = me.archive_path;
    &&& store.contains_key(own) <==> me.step == finished(Ok(()))
    &&& match me.step.state {
        PublishView::CheckArchive { ledger_path, archive_path, meta, archive } => {
            &&& ledger_path == ledger
            &&& archive_path == own
            &&& archive == me.archive
            &&& spec_normalize(meta, archive) == Ok::<Seq<u8>, RegistryError>(me.record)
            &&& me.step.action == ActionView::Ask(RequestView::Read { path: own })
        },
        PublishView::ReadLedger { ledger_path, archive_path, record, archive } => {
            &&& ledger_path == ledger
            &&& archive_path == own
            &&& archive == me.archive
            &&& record == me.record
            &&& me.step.action == ActionView::Ask(RequestView::Read { path: ledger })
        },
        PublishView::FetchToken { ledger_path, archive_path, ledger: content, archive } => {
            &&& ledger_path == ledger
            &&& archive_path == own
            &&& archive == me.archive
            &&& me.step.action == ActionView::Ask(RequestView::ConflictToken { path: ledger })
            &&& store.contains_key(ledger)
            &&& !has_written(rival) ==> before.contains_key(ledger) && content == ledger_with(
                before,
                ledger,
                me.record,
            )
        },
        PublishView::WriteLedger { archive_path, archive } => {
            &&& archive_path == own
            &&& archive == me.archive
            &&& match me.step.action {
                ActionView::Ask(RequestView::Create { path, content }) => {
                    &&& path == ledger
                    &&& content == me.record
                    &&& !has_written(rival) ==> !store.contains_key(ledger)
                        && !before.contains_key(ledger)
                },
                ActionView::Ask(RequestView::Update { path, content, token }) => {
                    &&& path == ledger
                    &&& store.contains_key(ledger)
                    &&& !has_written(rival) ==> store[ledger].token == token
                        && before.contains_key(ledger) && content == ledger_with(
                        before,
                        ledger,
                        me.record,
                    )
                },
                _ => false,
            }
        },
        PublishView::WriteArchive => {
            &&& me.step.action == ActionView::Ask(
                RequestView::Create { path: own, content: me.archive },
            )
            &&& store.contains_key(ledger)
        },
        PublishView::Done => {
            &&& me.step.action is Finish
            &&& me.step.action->Finish_0 is Ok ==> me.step == finished(Ok(()))
                && store.contains_key(ledger) && store[own].content == me.archive
            &&& me.step.action->Finish_0 is Err ==> has_written(rival) && (
            me.step.action->Finish_0->Err_0 == RegistryError::Conflict
                || me.step.action->Finish_0->Err_0 == RegistryError::AlreadyExists)
        },
    }
}

/// What holds of the ledger while two publishes race: until one of them
/// writes it, it is as before the race; while only one has written it, it
/// holds what was there before and the record of that one.
pub open spec fn ledger_in_race(
    first: Racer,
    second: Racer,
    store: StoreModel,
    before: Map<Seq<char>, Seq<u8>>,
    ledger: Seq<char>,
) -> bool {
    if has_written(first.step) && has_written(second.step) {
        store.contains_key(ledger)
    } else if has_written(first.step) {
        store.contains_key(ledger) && store[ledger].content == ledger_with(
            before,
            ledger,
            first.record,
        )
    } else if has_written(second.step) {
        store.contains_key(ledger) && store[ledger].content == ledger_with(
            before,
            ledger,
            second.record,
        )
    } else {
        (store.contains_key(ledger) <==> before.contains_key(ledger)) && (
        before.contains_key(ledger) ==> store[ledger].content == before[ledger])
    }
}

/// The objects at all paths but the three that the race is about.
pub open spec fn elsewhere(
    objects: Map<Seq<char>, Seq<u8>>,
    ledger: Seq<char>,
    first_archive: Seq<char>,
    second_archive: Seq<char>,
) -> Map<Seq<char>, Seq<u8>> {
    objects.remove(ledger).remove(first_archive).remove(second_archive)
}

/// What holds of two racing publishes of a package together.
pub open spec fn race_invariant(
    first: Racer,
    second: Racer,
    store: StoreModel,
    before: Map<Seq<char>, Seq<u8>>,
    ledger: Seq<char>,
) -> bool {
    &&& ledger != first.archive_path
    &&& ledger != second.archive_path
    &&& first.archive_path != second.archive_path
    &&& in_race(first, second.step, store, before, ledger)
    &&& in_race(second, first.step, store, before, ledger)
    &&& ledger_in_race(first, second, store, before, ledger)
    &&& elsewhere(contents(store), ledger, first.archive_path, second.archive_path) == elsewhere(
        before,
        ledger,
        first.archive_path,
        second.archive_path,
    )
}

/// Two maps that agree elsewhere agree at every path but the three.
pub proof fn lemma_elsewhere(
    objects: Map<Seq<char>, Seq<u8>>,
    others: Map<Seq<char>, Seq<u8>>,
    ledger: Seq<char>,
    first_archive: Seq<char>,
    second_archive: Seq<char>,
)
    requires
        elsewhere(objects, ledger, first_archive, second_archive) == elsewhere(
            others,
            ledger,
            first_archive,
            second_archive,
        ),
    ensures
        forall|path: Seq<char>|
            path != ledger && path != first_archive && path != second_archive ==> (
            #[trigger] objects.contains_key(path) <==> others.contains_key(path)) && (
            objects.contains_key(path) ==> objects[path] == others[path]),
{
    assert forall|path: Seq<char>|
        path != ledger && path != first_archive && path != second_archive implies (
    #[trigger] objects.contains_key(path) <==> others.contains_key(path)) && (
    objects.contains_key(path) ==> objects[path] == others[path]) by {
        let here = elsewhere(objects, ledger, first_archive, second_archive);
        let there = elsewhere(others, ledger, first_archive, second_archive);
        assert(here.contains_key(path) == objects.contains_key(path));
        assert(there.contains_key(path) == others.contains_key(path));
        if objects.contains_key(path) {
            assert(here[path] == objects[path]);
            assert(there[path] == others[path]);
        }
    }
}

/// The invariant does not depend on which publish is named first.
pub proof fn lemma_race_symmetric(
    first: Racer,
    second: Racer,
    store: StoreModel,
    before: Map<Seq<char>, Seq<u8>>,
    ledger: Seq<char>,
)
    requires
        race_invariant(first, second, store, before, ledger),
    ensures
        race_invariant(second, first, store, before, ledger),
{
    assert(elsewhere(contents(store), ledger, second.archive_path, first.archive_path)
        =~= elsewhere(contents(store), ledger, first.archive_path, second.archive_path));
    assert(elsewhere(before, ledger, second.archive_path, first.archive_path) =~= elsewhere(
        before,
        ledger,
        first.archive_path,
        second.archive_path,
    ));
}

/// The racer after its turn.
pub open spec fn moved(me: Racer, store: StoreModel, scheme: TokenScheme) -> Racer {
    Racer { step: turn(me.step, store, scheme).0, ..me }
}

/// A turn of either publish keeps the invariant.
pub proof fn lemma_turn_keeps_invariant(
    mover: Racer,
    other: Racer,
    store: StoreModel,
    scheme: TokenScheme,
    before: Map<Seq<char>, Seq<u8>>,
    ledger: Seq<char>,
)
    requires
        race_invariant(mover, other, store, before, ledger),
    ensures
        race_invariant(
            moved(mover, store, scheme),
            other,
            turn(mover.step, store, scheme).1,
            before,
            ledger,
        ),
        race_invariant(
            other,
            moved(mover, store, scheme),
            turn(mover.step, store, scheme).1,
            before,
            ledger,
        ),
{
    let after = turn(mover.step, store, scheme).1;
    assert(elsewhere(contents(after), ledger, mover.archive_path, other.archive_path)
        =~= elsewhere(contents(store), ledger, mover.archive_path, other.archive_path));
    lemma_race_symmetric(moved(mover, store, scheme), other, after, before, ledger);
}

/// The invariant holds however the two publishes take turns.
pub proof fn lemma_invariant_holds(
    first: Racer,
    second: Racer,
    store: StoreModel,
    scheme: TokenScheme,
    schedule: Seq<bool>,
    before: Map<Seq<char>, Seq<u8>>,
    ledger: Seq<char>,
)
    requires
        race_invariant(first, second, store, before, ledger),
    ensures
        ({
            let (a, b, s) = interleave(first.step, second.step, store, scheme, schedule);
            race_invariant(Racer { step: a, ..first }, Racer { step: b, ..second }, s, before, ledger)
        }),
    decreases schedule.len(),
{
    if schedule.len() > 0 {
        lemma_invariant_holds(first, second, store, scheme, schedule.drop_last(), before, ledger);
        let (a, b, s) = interleave(first.step, second.step, store, scheme, schedule.drop_last());
        let first_now = Racer { step: a, ..first };
        let second_now = Racer { step: b, ..second };
        if schedule.last() {
            lemma_turn_keeps_invariant(first_now, second_now, s, scheme, before, ledger);
        } else {
            lemma_race_symmetric(first_now, second_now, s, before, ledger);
            lemma_turn_keeps_invariant(second_now, first_now, s, scheme, before, ledger);
        }
    }
}

/// Two publishes of different versions of one package, neither version
/// published before and both with metadata that can be normalised, take
/// turns at the store in any order. Once both have finished, at least one
/// has succeeded. One that failed has failed with `Conflict`, or with
/// `AlreadyExists` where the other created the ledger first, and has left
/// no trace: the store holds what it would hold had the other run alone.
pub proof fn lemma_one_of_two_succeeds(
    store: StoreModel,
    scheme: TokenScheme,
    schedule: Seq<bool>,
    name: Seq<char>,
    first_vers: Seq<char>,
    first_meta: Seq<u8>,
    first_archive: Seq<u8>,
    second_vers: Seq<char>,
    second_meta: Seq<u8>,
    second_archive: Seq<u8>,
)
    requires
        valid_name(name),
        first_vers != second_vers,
        !store.contains_key(spec_archive_path(name, first_vers)),
        !store.contains_key(spec_archive_path(name, second_vers)),
        spec_normalize(first_meta, first_archive) is Ok,
        spec_normalize(second_meta, second_archive) is Ok,
    ensures
        ({
            let (a, b, after) = interleave(
                spec_save_crate(name, first_vers, first_meta, first_archive),
                spec_save_crate(name, second_vers, second_meta, second_archive),
                store,
                scheme,
                schedule,
            );
            a.action is Finish && b.action is Finish ==> {
                let first = a.action->Finish_0;
                let second = b.action->Finish_0;
                &&& first is Ok || second is Ok
                &&& first is Err ==> first->Err_0 == RegistryError::Conflict || first->Err_0
                    == RegistryError::AlreadyExists
                &&& second is Err ==> second->Err_0 == RegistryError::Conflict || second->Err_0
                    == RegistryError::AlreadyExists
                &&& first is Err ==> contents(after) == publish_outcome(
                    contents(store),
                    name,
                    second_vers,
                    second_meta,
                    second_archive,
                ).0
                &&& second is Err ==> contents(after) == publish_outcome(
                    contents(store),
                    name,
                    first_vers,
                    first_meta,
                    first_archive,
                ).0
                &&& first is Ok ==> after.contains_key(spec_archive_path(name, first_vers))
                &&& second is Ok ==> after.contains_key(spec_archive_path(name, second_vers))
                &&& after.contains_key(spec_ledger_path(name))
            }
        }),
{
    let ledger = spec_ledger_path(name);
    let first_path = spec_archive_path(name, first_vers);
    let second_path = spec_archive_path(name, second_vers);
    lemma_ledger_is_no_archive(name, first_vers);
    lemma_ledger_is_no_archive(name, second_vers);
    if first_path == second_path {
        lemma_archive_path_injective(name, first_vers, second_vers);
    }
    let first = Racer {
        step: spec_save_crate(name, first_vers, first_meta, first_archive),
        archive_path: first_path,
        record: spec_normalize(first_meta, first_archive)->Ok_0,
        archive: first_archive,
    };
    let second = Racer {
        step: spec_save_crate(name, second_vers, second_meta, second_archive),
        archive_path: second_path,
        record: spec_normalize(second_meta, second_archive)->Ok_0,
        archive: second_archive,
    };
    let before = contents(store);
    lemma_invariant_holds(first, second, store, scheme, schedule, before, ledger);
    let (a, b, after) = interleave(first.step, second.step, store, scheme, schedule);
    lemma_elsewhere(contents(after), before, ledger, first_path, second_path);
}

} // verus!
