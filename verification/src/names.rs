//! What a compilation owes to the list of names, and what it does not.
use vstd::prelude::*;

use crate::dialogue::{Decision, Replies, RequestView};
use crate::error::{CascadeErrors, ErrorItemView};
use crate::laws::{
    lemma_all_known, lemma_no_unknown_names, lemma_success_gives_the_named_systems,
    lemma_success_means_no_errors,
};
use crate::plan::{
    all_systems, compiled, compiling, compiling_all_systems, compiling_systems, declaring,
    default_system, lemma_reducing_done, reading, reducing, validating,
};
use crate::progress::lemma_reducing_asks;
use crate::sexp::{cil_policy, Sexp};
use crate::text::texts;

verus! {

/// What reducing the policies for one system comes to: its CIL text, or errors.
pub open spec fn reduction_of(answer: Result<Vec<Sexp>, CascadeErrors>) -> Result<
    Seq<char>,
    Seq<ErrorItemView>,
> {
    match answer {
        Ok(sexps) => Ok(cil_policy(sexps@)),
        Err(errors) => Err(errors@),
    }
}

/// The answers for the names depend on the system alone: each is what `reduction` says of the name
/// at its place.
pub open spec fn reduced_by(
    names: Seq<Seq<char>>,
    reduced: Seq<Result<Vec<Sexp>, CascadeErrors>>,
    reduction: spec_fn(Seq<char>) -> Result<Seq<char>, Seq<ErrorItemView>>,
) -> bool {
    forall|i: int|
        0 <= i < names.len() && i < reduced.len() ==> reduction_of(#[trigger] reduced[i])
            == reduction(names[i])
}

/// The stages before the reduction came to the same in both compilations, neither of which makes a
/// default system.
pub open spec fn stages_alike(policies: nat, first: Replies, second: Replies) -> bool {
    &&& declaring(policies, first) == declaring(policies, second)
    &&& declaring(policies, first) matches Decision::Done(Ok(count)) ==> validating(
        count,
        Seq::empty(),
        false,
        first,
    ) == validating(count, Seq::empty(), false, second)
}

/// The CIL text of each of the first `count` names is the one that the reduction gives it.
proof fn lemma_compiled_by(
    names: Seq<Seq<char>>,
    systems: Seq<Seq<char>>,
    reduced: Seq<Result<Vec<Sexp>, CascadeErrors>>,
    reduction: spec_fn(Seq<char>) -> Result<Seq<char>, Seq<ErrorItemView>>,
    count: nat,
)
    requires
        count <= names.len() <= reduced.len(),
        forall|i: int| 0 <= i < names.len() ==> systems.contains(#[trigger] names[i]),
        forall|i: int| 0 <= i < names.len() ==> #[trigger] reduced[i] is Ok,
        reduced_by(names, reduced, reduction),
    ensures
        forall|i: int|
            0 <= i < count ==> compiled(names, systems, reduced, count)[#[trigger] names[i]]
                == reduction(names[i])->Ok_0,
    decreases count,
{
    if count > 0 {
        let last = (count - 1) as nat;
        lemma_compiled_by(names, systems, reduced, reduction, last);
        lemma_all_known(names, systems, last);
        assert(systems.contains(names[last as int]));
        assert(reduced[last as int] is Ok);
        assert(reduction_of(reduced[last as int]) == reduction(names[last as int]));
    }
}

/// In a compilation that succeeds, each system has the CIL that the reduction gives it, whatever
/// its place and whatever the other names.
pub proof fn lemma_text_depends_on_the_system_alone(
    policies: nat,
    names: Seq<Seq<char>>,
    create_default_system: bool,
    replies: Replies,
    reduction: spec_fn(Seq<char>) -> Result<Seq<char>, Seq<ErrorItemView>>,
)
    requires
        compiling(policies, names, create_default_system, replies) matches Decision::Done(Ok(_)),
        reduced_by(names, replies.reduced@, reduction),
    ensures
        ({
            let map = compiling(policies, names, create_default_system, replies)->Done_0->Ok_0;
            &&& map.dom() == names.to_set()
            &&& forall|name: Seq<char>| #[trigger]
                names.contains(name) ==> reduction(name) == Ok::<Seq<char>, Seq<ErrorItemView>>(
                    map[name],
                )
        }),
{
    let map = compiling(policies, names, create_default_system, replies)->Done_0->Ok_0;
    let count = declaring(policies, replies)->Done_0->Ok_0;
    let systems = validating(count, names, create_default_system, replies)->Done_0->Ok_0;
    lemma_success_gives_the_named_systems(policies, names, create_default_system, replies);
    lemma_success_means_no_errors(policies, names, create_default_system, replies);
    lemma_all_known(names, systems, names.len());
    lemma_compiled_by(names, systems, replies.reduced@, reduction, names.len());
    assert forall|name: Seq<char>| #[trigger] names.contains(name) implies reduction(name) == Ok::<
        Seq<char>,
        Seq<ErrorItemView>,
    >(map[name]) by {
        let i = choose|i: int| 0 <= i < names.len() && names[i] == name;
        assert(replies.reduced@[i] is Ok);
        assert(reduction_of(replies.reduced@[i]) == reduction(names[i]));
    }
}

/// If every name is that of a system and can be reduced, reducing does not fail.
proof fn lemma_reducing_does_not_fail(
    policies: nat,
    names: Seq<Seq<char>>,
    systems: Seq<Seq<char>>,
    reduced: Seq<Result<Vec<Sexp>, CascadeErrors>>,
    from: nat,
)
    requires
        from <= names.len(),
        forall|i: int| 0 <= i < names.len() ==> systems.contains(#[trigger] names[i]),
        forall|i: int| 0 <= i < names.len() && i < reduced.len() ==> #[trigger] reduced[i] is Ok,
    ensures
        !(reducing(policies, names, systems, reduced, from) matches Decision::Done(Err(_))),
    decreases names.len() - from,
{
    if from < names.len() {
        lemma_all_known(names, systems, from);
        lemma_reducing_does_not_fail(policies, names, systems, reduced, from + 1);
    }
}

/// Naming some of the systems gives their part of what naming all of them gives. If a compilation
/// of `all` succeeded, one of `names`, every one of which stands in `all`, succeeds too, with the
/// same CIL for each, once it has come to its end.
pub proof fn lemma_some_systems_are_part_of_all(
    policies: nat,
    names: Seq<Seq<char>>,
    all: Seq<Seq<char>>,
    part: Replies,
    whole: Replies,
    reduction: spec_fn(Seq<char>) -> Result<Seq<char>, Seq<ErrorItemView>>,
)
    requires
        stages_alike(policies, part, whole),
        reduced_by(names, part.reduced@, reduction),
        reduced_by(all, whole.reduced@, reduction),
        forall|i: int| 0 <= i < names.len() ==> all.contains(#[trigger] names[i]),
        compiling(policies, all, false, whole) matches Decision::Done(Ok(_)),
        compiling(policies, names, false, part) is Done,
    ensures
        compiling(policies, names, false, part) == Decision::<Map<Seq<char>, Seq<char>>>::Done(
            Ok(
                compiling(policies, all, false, whole)->Done_0->Ok_0.restrict(names.to_set()),
            ),
        ),
{
    let count = declaring(policies, whole)->Done_0->Ok_0;
    let systems = validating(count, all, false, whole)->Done_0->Ok_0;
    let map = compiling(policies, all, false, whole)->Done_0->Ok_0;
    lemma_success_means_no_errors(policies, all, false, whole);
    lemma_text_depends_on_the_system_alone(policies, all, false, whole, reduction);
    assert(validating(count, names, false, part) == validating(count, Seq::empty(), false, part));
    assert(validating(count, all, false, whole) == validating(count, Seq::empty(), false, whole));
    assert forall|i: int| 0 <= i < names.len() implies systems.contains(#[trigger] names[i]) by {
        let j = choose|j: int| 0 <= j < all.len() && all[j] == names[i];
        assert(systems.contains(all[j]));
    }
    assert forall|i: int|
        0 <= i < names.len() && i < part.reduced@.len() implies #[trigger] part.reduced@[i] is Ok by {
        assert(reduction_of(part.reduced@[i]) == reduction(names[i]));
        assert(all.contains(names[i]));
    }
    lemma_no_unknown_names(names, systems, names.len());
    lemma_reducing_does_not_fail(count, names, systems, part.reduced@, 0);
    assert(compiling(policies, names, false, part) matches Decision::Done(Ok(_)));
    lemma_text_depends_on_the_system_alone(policies, names, false, part, reduction);
    let some = compiling(policies, names, false, part)->Done_0->Ok_0;
    assert forall|name: Seq<char>| some.contains_key(name) implies map.contains_key(name)
        && #[trigger] some[name] == map[name] by {
        assert(names.contains(name));
        let i = choose|i: int| 0 <= i < names.len() && names[i] == name;
        assert(all.contains(names[i]));
    }
    assert forall|name: Seq<char>| names.to_set().contains(name) implies map.contains_key(name) by {
        let i = choose|i: int| 0 <= i < names.len() && names[i] == name;
        assert(all.contains(names[i]));
    }
    assert(some =~= map.restrict(names.to_set()));
}

/// A system compiled on its own has the CIL that it has among others.
pub proof fn lemma_system_alone(
    policies: nat,
    name: Seq<char>,
    all: Seq<Seq<char>>,
    alone: Replies,
    whole: Replies,
    reduction: spec_fn(Seq<char>) -> Result<Seq<char>, Seq<ErrorItemView>>,
)
    requires
        stages_alike(policies, alone, whole),
        reduced_by(seq![name], alone.reduced@, reduction),
        reduced_by(all, whole.reduced@, reduction),
        all.contains(name),
        compiling(policies, all, false, whole) matches Decision::Done(Ok(_)),
        compiling(policies, seq![name], false, alone) is Done,
    ensures
        compiling(policies, seq![name], false, alone) == Decision::<
            Map<Seq<char>, Seq<char>>,
        >::Done(Ok(map![name => compiling(policies, all, false, whole)->Done_0->Ok_0[name]])),
{
    let names = seq![name];
    assert(names[0] == name);
    lemma_some_systems_are_part_of_all(policies, names, all, alone, whole, reduction);
    lemma_success_gives_the_named_systems(policies, all, false, whole);
    let map = compiling(policies, all, false, whole)->Done_0->Ok_0;
    assert(names.to_set() =~= set![name]);
    assert(map.restrict(names.to_set()) =~= map![name => map[name]]);
}

/// The order of the names, and how often each stands in the list, change nothing: with the same
/// systems in the list a compilation succeeds exactly if the other does, with the same CIL for
/// each system.
pub proof fn lemma_order_and_repeats_are_free(
    policies: nat,
    names: Seq<Seq<char>>,
    reordered: Seq<Seq<char>>,
    first: Replies,
    second: Replies,
    reduction: spec_fn(Seq<char>) -> Result<Seq<char>, Seq<ErrorItemView>>,
)
    requires
        stages_alike(policies, first, second),
        reduced_by(names, first.reduced@, reduction),
        reduced_by(reordered, second.reduced@, reduction),
        names.to_set() == reordered.to_set(),
        compiling(policies, names, false, first) is Done,
        compiling(policies, reordered, false, second) is Done,
    ensures
        (compiling(policies, names, false, first) matches Decision::Done(Ok(_))) <==> (compiling(
            policies,
            reordered,
            false,
            second,
        ) matches Decision::Done(Ok(_))),
        compiling(policies, names, false, first) matches Decision::Done(Ok(_)) ==> compiling(
            policies,
            names,
            false,
            first,
        ) == compiling(policies, reordered, false, second),
{
    assert forall|i: int| 0 <= i < names.len() implies reordered.contains(#[trigger] names[i]) by {
        assert(names.to_set().contains(names[i]));
    }
    assert forall|i: int| 0 <= i < reordered.len() implies names.contains(
        #[trigger] reordered[i],
    ) by {
        assert(reordered.to_set().contains(reordered[i]));
    }
    if compiling(policies, names, false, first) matches Decision::Done(Ok(_)) {
        lemma_some_systems_are_part_of_all(policies, reordered, names, second, first, reduction);
        lemma_success_gives_the_named_systems(policies, names, false, first);
        let map = compiling(policies, names, false, first)->Done_0->Ok_0;
        assert(map.restrict(reordered.to_set()) =~= map);
    }
    if compiling(policies, reordered, false, second) matches Decision::Done(Ok(_)) {
        lemma_some_systems_are_part_of_all(policies, names, reordered, first, second, reduction);
    }
}

/// Compiling some of the systems that compiling every system gives a policy for gives their part of
/// that result.
pub proof fn lemma_named_systems_are_part_of_all_systems(
    files: Seq<Seq<char>>,
    names: Seq<Seq<char>>,
    part: Replies,
    whole: Replies,
    reduction: spec_fn(Seq<char>) -> Result<Seq<char>, Seq<ErrorItemView>>,
)
    requires
        reading(files, part) == reading(files, whole),
        reading(files, whole) matches Decision::Done(Ok(policies)) && {
            &&& stages_alike(policies.len(), part, whole)
            &&& reduced_by(all_systems(policies), whole.reduced@, reduction)
        },
        reduced_by(names, part.reduced@, reduction),
        compiling_all_systems(files, whole) matches Decision::Done(Ok(all)) && forall|i: int|
            0 <= i < names.len() ==> all.contains_key(#[trigger] names[i]),
        compiling_systems(files, names, part) is Done,
    ensures
        compiling_systems(files, names, part) == Decision::<Map<Seq<char>, Seq<char>>>::Done(
            Ok(compiling_all_systems(files, whole)->Done_0->Ok_0.restrict(names.to_set())),
        ),
{
    let policies = reading(files, whole)->Done_0->Ok_0;
    let all = all_systems(policies);
    let map = compiling_all_systems(files, whole)->Done_0->Ok_0;
    lemma_success_gives_the_named_systems(policies.len(), all, false, whole);
    assert forall|i: int| 0 <= i < names.len() implies all.contains(#[trigger] names[i]) by {
        assert(map.contains_key(names[i]));
    }
    lemma_some_systems_are_part_of_all(
        policies.len(),
        names,
        all,
        part,
        whole,
        reduction,
    );
}

/// The order of the names, and how often each stands in the list, change nothing in what becomes
/// of input files.
pub proof fn lemma_order_and_repeats_are_free_for_files(
    files: Seq<Seq<char>>,
    names: Seq<Seq<char>>,
    reordered: Seq<Seq<char>>,
    first: Replies,
    second: Replies,
    reduction: spec_fn(Seq<char>) -> Result<Seq<char>, Seq<ErrorItemView>>,
)
    requires
        reading(files, first) == reading(files, second),
        reading(files, first) matches Decision::Done(Ok(policies)) ==> stages_alike(
            policies.len(),
            first,
            second,
        ),
        reduced_by(names, first.reduced@, reduction),
        reduced_by(reordered, second.reduced@, reduction),
        names.to_set() == reordered.to_set(),
        compiling_systems(files, names, first) is Done,
        compiling_systems(files, reordered, second) is Done,
    ensures
        (compiling_systems(files, names, first) matches Decision::Done(Ok(_))) <==> (
        compiling_systems(files, reordered, second) matches Decision::Done(Ok(_))),
        compiling_systems(files, names, first) matches Decision::Done(Ok(_)) ==> compiling_systems(
            files,
            names,
            first,
        ) == compiling_systems(files, reordered, second),
{
    if let Decision::Done(Ok(policies)) = reading(files, first) {
        lemma_order_and_repeats_are_free(
            policies.len(),
            names,
            reordered,
            first,
            second,
            reduction,
        );
    }
}

/// The first of the names, and no other, stands for the default system that is added.
pub proof fn lemma_first_name_is_the_default_system(
    policies: nat,
    names: Seq<Seq<char>>,
    create_default_system: bool,
    replies: Replies,
)
    ensures
        compiling(policies, names, create_default_system, replies) matches Decision::Ask(
            RequestView::InsertSystem(system),
        ) ==> {
            &&& create_default_system
            &&& replies.type_names is Some
            &&& system == default_system(names[0], texts(replies.type_names->0@))
        },
{
    if let Decision::Done(Ok(count)) = declaring(policies, replies) {
        if let Decision::Done(Ok(systems)) = validating(
            count,
            names,
            create_default_system,
            replies,
        ) {
            lemma_reducing_asks(count, names, systems, replies.reduced@, 0);
        }
    }
}

/// The default system comes beside the other systems and changes none of them: compiled with it,
/// the others have the CIL that they have without it, and the result holds one system more.
pub proof fn lemma_default_system_changes_no_other(
    policies: nat,
    default_name: Seq<char>,
    names: Seq<Seq<char>>,
    with_default: Replies,
    without: Replies,
    reduction: spec_fn(Seq<char>) -> Result<Seq<char>, Seq<ErrorItemView>>,
)
    requires
        !names.contains(default_name),
        reduced_by(seq![default_name] + names, with_default.reduced@, reduction),
        reduced_by(names, without.reduced@, reduction),
        compiling(policies, seq![default_name] + names, true, with_default) matches Decision::Done(
            Ok(_),
        ),
        compiling(policies, names, false, without) matches Decision::Done(Ok(_)),
    ensures
        ({
            let with_map = compiling(
                policies,
                seq![default_name] + names,
                true,
                with_default,
            )->Done_0->Ok_0;
            let map = compiling(policies, names, false, without)->Done_0->Ok_0;
            &&& !map.contains_key(default_name)
            &&& with_map == map.insert(default_name, with_map[default_name])
            &&& with_map.len() == map.len() + 1
        }),
{
    let all = seq![default_name] + names;
    let with_map = compiling(policies, all, true, with_default)->Done_0->Ok_0;
    let map = compiling(policies, names, false, without)->Done_0->Ok_0;
    lemma_text_depends_on_the_system_alone(policies, all, true, with_default, reduction);
    lemma_text_depends_on_the_system_alone(policies, names, false, without, reduction);
    assert(all[0] == default_name);
    assert forall|name: Seq<char>| all.contains(name) <==> name == default_name || names.contains(
        name,
    ) by {
        if names.contains(name) {
            let i = choose|i: int| 0 <= i < names.len() && names[i] == name;
            assert(all[i + 1] == name);
        }
        if all.contains(name) && name != default_name {
            let i = choose|i: int| 0 <= i < all.len() && all[i] == name;
            assert(names[i - 1] == name);
        }
    }
    assert forall|name: Seq<char>| names.to_set().contains(name) implies with_map[name]
        == map[name] by {
        assert(names.contains(name));
        assert(all.contains(name));
    }
    assert(with_map =~= map.insert(default_name, with_map[default_name]));
}

} // verus!
