//! What holds of every compilation.
use vstd::prelude::*;

use crate::ast::PolicyFile;
use crate::dialogue::{Decision, Replies};
use crate::error::{CascadeErrors, ErrorItemView};
use crate::load::{file_errors, loaded, FileContent};
use crate::plan::{
    all_systems, association_errors, compiled, compiling, compiling_all_systems,
    compiling_combined, compiling_systems, declaring, invalid_system, known_count,
    lemma_known_count_grows, lemma_reducing_done, loaded_policies, outcome_errors, reading,
    reduced_up_to, reducing, unknown_errors, validating, writing,
};
use crate::sexp::{cil_lines, cil_policy, Sexp};
use crate::text::{lemma_joined_concat, lemma_push_to_set, texts};

verus! {

// ---------------------------------------------------------------------------------------------
// Success
// ---------------------------------------------------------------------------------------------

/// `compiled` has a text for a name exactly if the name is among the first `count` and a system
/// has it.
proof fn lemma_compiled_dom(
    names: Seq<Seq<char>>,
    systems: Seq<Seq<char>>,
    reduced: Seq<Result<Vec<Sexp>, CascadeErrors>>,
    count: nat,
)
    requires
        count <= names.len(),
    ensures
        forall|name: Seq<char>| #[trigger]
            compiled(names, systems, reduced, count).contains_key(name) <==> names.take(
                count as int,
            ).contains(name) && systems.contains(name),
    decreases count,
{
    if count > 0 {
        let before = (count - 1) as nat;
        lemma_compiled_dom(names, systems, reduced, before);
        let seen = names.take(before as int);
        let next = names.take(count as int);
        assert(next =~= seen.push(names[before as int]));
        lemma_push_to_set(seen, names[before as int]);
        assert forall|name: Seq<char>| #[trigger]
            compiled(names, systems, reduced, count).contains_key(name) <==> next.contains(name)
                && systems.contains(name) by {
            assert(compiled(names, systems, reduced, before).contains_key(name)
                <==> seen.contains(name) && systems.contains(name));
            assert(next.to_set().contains(name) == seen.to_set().insert(
                names[before as int],
            ).contains(name));
        }
    } else {
        assert(names.take(0) =~= Seq::empty());
    }
}

/// If there is no error for an unknown name, every name is one of a system.
pub proof fn lemma_no_unknown_names(names: Seq<Seq<char>>, systems: Seq<Seq<char>>, count: nat)
    requires
        count <= names.len(),
    ensures
        unknown_errors(names, systems, count).len() == 0 <==> (forall|i: int|
            0 <= i < count ==> systems.contains(#[trigger] names[i])),
    decreases count,
{
    if count > 0 {
        lemma_no_unknown_names(names, systems, (count - 1) as nat);
    }
}

/// A compilation that succeeds gives a policy for each of the named systems, and for no other: the
/// systems in the result are those in the list.
pub proof fn lemma_success_gives_the_named_systems(
    policies: nat,
    names: Seq<Seq<char>>,
    create_default_system: bool,
    replies: Replies,
)
    requires
        compiling(policies, names, create_default_system, replies) matches Decision::Done(Ok(_)),
    ensures
        compiling(policies, names, create_default_system, replies)->Done_0->Ok_0.dom()
            == names.to_set(),
        names.no_duplicates() ==> compiling(
            policies,
            names,
            create_default_system,
            replies,
        )->Done_0->Ok_0.len() == names.len(),
{
    let count = declaring(policies, replies)->Done_0->Ok_0;
    let systems = validating(count, names, create_default_system, replies)->Done_0->Ok_0;
    let map = compiling(policies, names, create_default_system, replies)->Done_0->Ok_0;
    lemma_compiled_dom(names, systems, replies.reduced@, names.len());
    lemma_no_unknown_names(names, systems, names.len());
    assert(names.take(names.len() as int) =~= names);
    assert(map.dom() =~= names.to_set());
    if names.no_duplicates() {
        names.unique_seq_to_set();
    }
}

/// Every step has been answered for every policy without an error, every name in the list is that
/// of a system, and the policies have been reduced for each of them.
pub open spec fn all_clean(
    policies: nat,
    names: Seq<Seq<char>>,
    create_default_system: bool,
    replies: Replies,
) -> bool {
    &&& replies.built_in_types matches Some(Ok(_))
    &&& replies.type_maps@.len() >= policies
    &&& outcome_errors(replies.type_maps@, policies).len() == 0
    &&& replies.global_bindings@.len() >= policies
    &&& outcome_errors(replies.global_bindings@, policies).len() == 0
    &&& replies.type_aliases
    &&& replies.extends@.len() >= policies
    &&& outcome_errors(replies.extends@, policies).len() == 0
    &&& replies.func_maps@.len() >= policies
    &&& outcome_errors(replies.func_maps@, policies).len() == 0
    &&& replies.associated is Some
    &&& replies.associated->0 is Ok ==> replies.associated_type_map is Some
    &&& association_errors(replies).len() == 0
    &&& replies.modules matches Some(Ok(_))
    &&& replies.module_aliases
    &&& replies.systems matches Some(Ok(_))
    &&& create_default_system ==> {
        &&& replies.default_module matches Some(Ok(_))
        &&& replies.type_names is Some
    }
    &&& (if create_default_system {
        replies.default_system
    } else {
        replies.systems
    }) matches Some(Ok(systems))
    &&& forall|i: int| 0 <= i < names.len() ==> texts(systems@).contains(#[trigger] names[i])
    &&& reduced_up_to(names, texts(systems@), replies.reduced@, names.len())
}

/// A compilation succeeds exactly if every step went well and every system in the list is there.
pub proof fn lemma_success_means_no_errors(
    policies: nat,
    names: Seq<Seq<char>>,
    create_default_system: bool,
    replies: Replies,
)
    ensures
        (compiling(policies, names, create_default_system, replies) matches Decision::Done(Ok(_)))
            <==> all_clean(policies, names, create_default_system, replies),
{
    if let Decision::Done(Ok(count)) = declaring(policies, replies) {
        if let Decision::Done(Ok(systems)) = validating(
            count,
            names,
            create_default_system,
            replies,
        ) {
            lemma_no_unknown_names(names, systems, names.len());
            if reducing(count, names, systems, replies.reduced@, 0) matches Decision::Done(Ok(_)) {
                lemma_reducing_done(count, names, systems, replies.reduced@, 0);
            }
            if reduced_up_to(names, systems, replies.reduced@, names.len()) {
                lemma_reducing_succeeds(count, names, systems, replies.reduced@, 0);
            }
        }
    }
}

/// If every name is that of a system, each has the answer at its own place.
pub proof fn lemma_all_known(names: Seq<Seq<char>>, systems: Seq<Seq<char>>, count: nat)
    requires
        count <= names.len(),
        forall|i: int| 0 <= i < names.len() ==> systems.contains(#[trigger] names[i]),
    ensures
        known_count(names, systems, count) == count,
    decreases count,
{
    if count > 0 {
        lemma_all_known(names, systems, (count - 1) as nat);
        assert(systems.contains(names[count - 1]));
    }
}

/// The text of a name that does not stand in the list again is that of its own answer.
proof fn lemma_compiled_text(
    names: Seq<Seq<char>>,
    systems: Seq<Seq<char>>,
    reduced: Seq<Result<Vec<Sexp>, CascadeErrors>>,
    i: nat,
    count: nat,
)
    requires
        i < count <= names.len(),
        forall|j: int| 0 <= j < names.len() ==> systems.contains(#[trigger] names[j]),
        forall|j: int| i < j < names.len() ==> #[trigger] names[j] != names[i as int],
    ensures
        compiled(names, systems, reduced, count).contains_key(names[i as int]),
        compiled(names, systems, reduced, count)[names[i as int]] == cil_policy(
            reduced[i as int]->Ok_0@,
        ),
    decreases count,
{
    let last = (count - 1) as nat;
    assert(systems.contains(names[last as int]));
    if last == i {
        lemma_all_known(names, systems, i);
    } else {
        lemma_compiled_text(names, systems, reduced, i, last);
        assert(names[last as int] != names[i as int]);
    }
}

/// In a compilation that succeeds, the policy of each system is the CIL of what the policies were
/// reduced to for that very system. A name that stands in the list more than once has the policy
/// of its last place.
pub proof fn lemma_each_system_has_its_own_policy(
    policies: nat,
    names: Seq<Seq<char>>,
    create_default_system: bool,
    replies: Replies,
    i: nat,
)
    requires
        compiling(policies, names, create_default_system, replies) matches Decision::Done(Ok(_)),
        i < names.len(),
        forall|j: int| i < j < names.len() ==> #[trigger] names[j] != names[i as int],
    ensures
        i < replies.reduced@.len(),
        replies.reduced@[i as int] is Ok,
        ({
            let map = compiling(policies, names, create_default_system, replies)->Done_0->Ok_0;
            &&& map.contains_key(names[i as int])
            &&& map[names[i as int]] == cil_policy(replies.reduced@[i as int]->Ok_0@)
        }),
{
    let count = declaring(policies, replies)->Done_0->Ok_0;
    let systems = validating(count, names, create_default_system, replies)->Done_0->Ok_0;
    lemma_success_means_no_errors(policies, names, create_default_system, replies);
    lemma_all_known(names, systems, names.len());
    lemma_compiled_text(names, systems, replies.reduced@, i, names.len());
}

/// Everything compiled into one policy is what the system `out` was compiled to: if that system is
/// compiled, its policy is there, and it is the CIL of what the policies were reduced to for it.
pub proof fn lemma_combined_is_the_out_system(files: Seq<Seq<char>>, replies: Replies)
    requires
        reading(files, replies) matches Decision::Done(Ok(_)),
    ensures
        ({
            let policies = reading(files, replies)->Done_0->Ok_0;
            match compiling(policies.len(), seq!["out"@], true, replies) {
                Decision::Ask(q) => compiling_combined(files, replies) == Decision::<
                    Seq<char>,
                >::Ask(q),
                Decision::Done(Err(e)) => compiling_combined(files, replies) == Decision::<
                    Seq<char>,
                >::Done(Err(e)),
                Decision::Done(Ok(map)) => {
                    &&& map.dom() == set!["out"@]
                    &&& compiling_combined(files, replies) == Decision::<Seq<char>>::Done(
                        Ok(map["out"@]),
                    )
                    &&& map["out"@] == cil_policy(replies.reduced@[0]->Ok_0@)
                },
            }
        }),
{
    let policies = reading(files, replies)->Done_0->Ok_0;
    let names = seq!["out"@];
    if compiling(policies.len(), names, true, replies) matches Decision::Done(Ok(_)) {
        lemma_success_gives_the_named_systems(policies.len(), names, true, replies);
        assert(names[0] == "out"@);
        assert(names.to_set() =~= set!["out"@]);
        lemma_each_system_has_its_own_policy(policies.len(), names, true, replies, 0);
    }
}

/// Compiling every system is compiling the systems that the files declare, in the order of their
/// declarations.
pub proof fn lemma_all_systems_are_the_declared_ones(files: Seq<Seq<char>>, replies: Replies)
    ensures
        reading(files, replies) matches Decision::Done(Ok(policies)) ==> compiling_all_systems(
            files,
            replies,
        ) == compiling_systems(files, all_systems(policies), replies),
{
}

// ---------------------------------------------------------------------------------------------
// Failure
// ---------------------------------------------------------------------------------------------

/// An outcome that is an error says what the error is.
pub open spec fn says_why<T>(outcome: Result<T, CascadeErrors>) -> bool {
    outcome matches Err(e) ==> e@.len() > 0
}

/// Every answer that is an error says what the error is.
pub open spec fn all_say_why(replies: Replies) -> bool {
    &&& replies.built_in_types matches Some(r) ==> says_why(r)
    &&& replies.modules matches Some(r) ==> says_why(r)
    &&& replies.systems matches Some(r) ==> says_why(r)
    &&& replies.default_system matches Some(r) ==> says_why(r)
    &&& forall|i: int| 0 <= i < replies.reduced@.len() ==> says_why(#[trigger] replies.reduced@[i])
}

/// Reducing the policies fails with one of the answers.
proof fn lemma_reducing_says_why(
    policies: nat,
    names: Seq<Seq<char>>,
    systems: Seq<Seq<char>>,
    reduced: Seq<Result<Vec<Sexp>, CascadeErrors>>,
    from: nat,
)
    requires
        forall|i: int| 0 <= i < reduced.len() ==> says_why(#[trigger] reduced[i]),
    ensures
        reducing(policies, names, systems, reduced, from) matches Decision::Done(Err(e))
            ==> e.len() > 0,
    decreases names.len() - from,
{
    if from < names.len() {
        lemma_reducing_says_why(policies, names, systems, reduced, from + 1);
    }
}

/// A compilation that fails reports at least one error, if the stages do so.
pub proof fn lemma_failure_reports_errors(
    policies: nat,
    names: Seq<Seq<char>>,
    create_default_system: bool,
    replies: Replies,
)
    requires
        all_say_why(replies),
    ensures
        compiling(policies, names, create_default_system, replies) matches Decision::Done(Err(e))
            ==> e.len() > 0,
{
    if let Decision::Done(Ok(count)) = declaring(policies, replies) {
        if let Decision::Done(Ok(systems)) = validating(
            count,
            names,
            create_default_system,
            replies,
        ) {
            lemma_reducing_says_why(count, names, systems, replies.reduced@, 0);
        }
    }
}

/// A compilation of input files that fails reports at least one error, if the stages do so. Of the
/// files and of the steps that ask for every policy nothing is assumed.
pub proof fn lemma_failure_reports_errors_for_files(
    files: Seq<Seq<char>>,
    names: Seq<Seq<char>>,
    replies: Replies,
)
    requires
        all_say_why(replies),
    ensures
        compiling_combined(files, replies) matches Decision::Done(Err(e)) ==> e.len() > 0,
        compiling_systems(files, names, replies) matches Decision::Done(Err(e)) ==> e.len() > 0,
        compiling_all_systems(files, replies) matches Decision::Done(Err(e)) ==> e.len() > 0,
{
    if let Decision::Done(Ok(policies)) = reading(files, replies) {
        let count = policies.len();
        lemma_failure_reports_errors(count, seq!["out"@], true, replies);
        lemma_failure_reports_errors(count, names, false, replies);
        lemma_failure_reports_errors(count, all_systems(policies), false, replies);
    }
}

/// Every file has been read without an error, and every step went well for the policies in them.
pub open spec fn all_clean_for_files(
    files: Seq<Seq<char>>,
    names: Seq<Seq<char>>,
    create_default_system: bool,
    replies: Replies,
) -> bool {
    &&& files.len() <= replies.files@.len()
    &&& outcome_errors(replies.files@, files.len()).len() == 0
    &&& all_clean(
        loaded_policies(replies.files@, files.len()).len(),
        names,
        create_default_system,
        replies,
    )
}

/// A compilation of input files succeeds exactly if every file was read without an error and every
/// step went well, whatever is compiled.
pub proof fn lemma_success_means_no_errors_for_files(
    files: Seq<Seq<char>>,
    names: Seq<Seq<char>>,
    replies: Replies,
)
    ensures
        (compiling_combined(files, replies) matches Decision::Done(Ok(_))) <==> all_clean_for_files(
            files,
            seq!["out"@],
            true,
            replies,
        ),
        (compiling_systems(files, names, replies) matches Decision::Done(Ok(_)))
            <==> all_clean_for_files(files, names, false, replies),
        (compiling_all_systems(files, replies) matches Decision::Done(Ok(_)))
            <==> all_clean_for_files(
            files,
            all_systems(loaded_policies(replies.files@, files.len())),
            false,
            replies,
        ),
{
    let policies = loaded_policies(replies.files@, files.len());
    let count = policies.len();
    lemma_success_means_no_errors(count, seq!["out"@], true, replies);
    lemma_success_means_no_errors(count, names, false, replies);
    lemma_success_means_no_errors(count, all_systems(policies), false, replies);
    if reading(files, replies) matches Decision::Done(Ok(_)) {
        lemma_combined_is_the_out_system(files, replies);
    }
}

/// The compilation has ended with these errors.
pub open spec fn failed_with(
    result: Decision<Map<Seq<char>, Seq<char>>>,
    errors: Seq<ErrorItemView>,
) -> bool {
    result == Decision::<Map<Seq<char>, Seq<char>>>::Done(Err(errors))
}

/// A step that went wrong ends the compilation with its errors and no others, whatever the names
/// are and whatever later steps would answer. The steps are those of collecting types, binding
/// symbols, checking extensions, applying annotations, validating modules and systems, and adding the
/// default system; in each clause those before it went well.
pub proof fn lemma_first_failing_step_is_reported(
    policies: nat,
    names: Seq<Seq<char>>,
    create_default_system: bool,
    replies: Replies,
)
    ensures
        ({
            let result = compiling(policies, names, create_default_system, replies);
            let types = outcome_errors(replies.type_maps@, policies);
            let bindings = outcome_errors(replies.global_bindings@, policies);
            let extends = outcome_errors(replies.extends@, policies);
            let annotations = outcome_errors(replies.func_maps@, policies) + association_errors(
                replies,
            );
            let types_due = {
                &&& replies.built_in_types matches Some(Ok(_))
                &&& replies.type_maps@.len() >= policies
            };
            let bindings_due = {
                &&& types_due
                &&& types.len() == 0
                &&& replies.global_bindings@.len() >= policies
            };
            let extends_due = {
                &&& bindings_due
                &&& bindings.len() == 0
                &&& replies.type_aliases
                &&& replies.extends@.len() >= policies
            };
            let annotations_due = {
                &&& extends_due
                &&& extends.len() == 0
                &&& replies.func_maps@.len() >= policies
                &&& replies.associated is Some
                &&& replies.associated->0 is Ok ==> replies.associated_type_map is Some
            };
            let modules_due = annotations_due && annotations.len() == 0;
            let systems_due = {
                &&& modules_due
                &&& replies.modules matches Some(Ok(_))
                &&& replies.module_aliases
            };
            let default_due = {
                &&& systems_due
                &&& replies.systems matches Some(Ok(_))
                &&& create_default_system
            };
            let insertion_due = {
                &&& default_due
                &&& replies.default_module matches Some(Ok(_))
                &&& replies.type_names is Some
            };
            &&& replies.built_in_types matches Some(Err(e)) ==> failed_with(result, e@)
            &&& types_due && types.len() > 0 ==> failed_with(result, types)
            &&& bindings_due && bindings.len() > 0 ==> failed_with(result, bindings)
            &&& extends_due && extends.len() > 0 ==> failed_with(result, extends)
            &&& annotations_due && annotations.len() > 0 ==> failed_with(result, annotations)
            &&& modules_due ==> (replies.modules matches Some(Err(e)) ==> failed_with(result, e@))
            &&& systems_due ==> (replies.systems matches Some(Err(e)) ==> failed_with(result, e@))
            &&& default_due && (replies.default_module matches Some(Err(_))) ==> failed_with(
                result,
                seq![ErrorItemView::Internal],
            )
            &&& insertion_due ==> (replies.default_system matches Some(Err(e)) ==> failed_with(
                result,
                e@,
            ))
        }),
{
}

/// A system that cannot be reduced ends the compilation with its errors and no others: neither
/// later systems nor unknown names in the list are reported beside it.
pub proof fn lemma_first_failing_reduction_is_reported(
    policies: nat,
    names: Seq<Seq<char>>,
    systems: Seq<Seq<char>>,
    replies: Replies,
    failing: nat,
)
    requires
        failing < replies.reduced@.len(),
        failing < known_count(names, systems, names.len()),
        forall|k: int| 0 <= k < failing ==> #[trigger] replies.reduced@[k] is Ok,
        replies.reduced@[failing as int] is Err,
    ensures
        failed_with(
            writing(policies, names, systems, replies),
            replies.reduced@[failing as int]->Err_0@,
        ),
{
    lemma_reducing_fails(policies, names, systems, replies.reduced@, failing, 0);
}

proof fn lemma_reducing_fails(
    policies: nat,
    names: Seq<Seq<char>>,
    systems: Seq<Seq<char>>,
    reduced: Seq<Result<Vec<Sexp>, CascadeErrors>>,
    failing: nat,
    from: nat,
)
    requires
        from <= names.len(),
        failing < reduced.len(),
        known_count(names, systems, from) <= failing < known_count(names, systems, names.len()),
        forall|k: int| 0 <= k < failing ==> #[trigger] reduced[k] is Ok,
        reduced[failing as int] is Err,
    ensures
        reducing(policies, names, systems, reduced, from) == Decision::<()>::Done(
            Err(reduced[failing as int]->Err_0@),
        ),
    decreases names.len() - from,
{
    let known = known_count(names, systems, from);
    if !systems.contains(names[from as int]) || known < failing {
        lemma_reducing_fails(policies, names, systems, reduced, failing, from + 1);
    }
}

/// No error in the list is that of an unknown system.
pub open spec fn names_no_system(errors: Seq<ErrorItemView>) -> bool {
    forall|i: int| 0 <= i < errors.len() ==> !(#[trigger] errors[i] is InvalidSystem)
}

/// An outcome does not report an unknown system.
pub open spec fn blames_no_system<T>(outcome: Result<T, CascadeErrors>) -> bool {
    outcome matches Err(e) ==> names_no_system(e@)
}

/// No answer of a stage, and none on a file, reports an unknown system.
pub open spec fn none_blames_a_system(replies: Replies) -> bool {
    &&& forall|i: int|
        0 <= i < replies.files@.len() ==> blames_no_system(#[trigger] replies.files@[i])
    &&& replies.built_in_types matches Some(r) ==> blames_no_system(r)
    &&& forall|i: int|
        0 <= i < replies.type_maps@.len() ==> blames_no_system(#[trigger] replies.type_maps@[i])
    &&& forall|i: int|
        0 <= i < replies.global_bindings@.len() ==> blames_no_system(
            #[trigger] replies.global_bindings@[i],
        )
    &&& forall|i: int|
        0 <= i < replies.extends@.len() ==> blames_no_system(#[trigger] replies.extends@[i])
    &&& forall|i: int|
        0 <= i < replies.func_maps@.len() ==> blames_no_system(#[trigger] replies.func_maps@[i])
    &&& replies.associated matches Some(r) ==> blames_no_system(r)
    &&& replies.associated_type_map matches Some(r) ==> blames_no_system(r)
    &&& replies.modules matches Some(r) ==> blames_no_system(r)
    &&& replies.systems matches Some(r) ==> blames_no_system(r)
    &&& replies.default_system matches Some(r) ==> blames_no_system(r)
    &&& forall|i: int|
        0 <= i < replies.reduced@.len() ==> blames_no_system(#[trigger] replies.reduced@[i])
}

proof fn lemma_outcome_errors_name_no_system<T>(
    outcomes: Seq<Result<T, CascadeErrors>>,
    count: nat,
)
    requires
        count <= outcomes.len(),
        forall|i: int| 0 <= i < outcomes.len() ==> blames_no_system(#[trigger] outcomes[i]),
    ensures
        names_no_system(outcome_errors(outcomes, count)),
    decreases count,
{
    if count > 0 {
        lemma_outcome_errors_name_no_system(outcomes, (count - 1) as nat);
        assert(blames_no_system(outcomes[count - 1]));
    }
}

proof fn lemma_reducing_names_no_system(
    policies: nat,
    names: Seq<Seq<char>>,
    systems: Seq<Seq<char>>,
    reduced: Seq<Result<Vec<Sexp>, CascadeErrors>>,
    from: nat,
)
    requires
        forall|i: int| 0 <= i < reduced.len() ==> blames_no_system(#[trigger] reduced[i]),
    ensures
        reducing(policies, names, systems, reduced, from) matches Decision::Done(Err(e))
            ==> names_no_system(e),
    decreases names.len() - from,
{
    if from < names.len() {
        lemma_reducing_names_no_system(policies, names, systems, reduced, from + 1);
    }
}

/// The stages before the systems are looked up report no unknown system of their own accord.
proof fn lemma_stages_name_no_system(
    policies: nat,
    names: Seq<Seq<char>>,
    create_default_system: bool,
    replies: Replies,
)
    requires
        none_blames_a_system(replies),
    ensures
        declaring(policies, replies) matches Decision::Done(Err(e)) ==> names_no_system(e),
        declaring(policies, replies) matches Decision::Done(Ok(count)) ==> (validating(
            count,
            names,
            create_default_system,
            replies,
        ) matches Decision::Done(Err(e)) ==> names_no_system(e)),
{
    if policies <= replies.type_maps@.len() {
        lemma_outcome_errors_name_no_system(replies.type_maps@, policies);
    }
    if policies <= replies.global_bindings@.len() {
        lemma_outcome_errors_name_no_system(replies.global_bindings@, policies);
    }
    if policies <= replies.extends@.len() {
        lemma_outcome_errors_name_no_system(replies.extends@, policies);
    }
    if policies <= replies.func_maps@.len() {
        lemma_outcome_errors_name_no_system(replies.func_maps@, policies);
    }
}

/// A compilation that a stage ends reports no unknown system, though the list of names may hold
/// one: such names are looked at only once every stage before has gone well. It reports at least
/// one error, if the stages do so.
pub proof fn lemma_failing_stage_hides_unknown_systems(
    policies: nat,
    names: Seq<Seq<char>>,
    create_default_system: bool,
    replies: Replies,
)
    requires
        none_blames_a_system(replies),
        match declaring(policies, replies) {
            Decision::Done(Ok(count)) => validating(
                count,
                names,
                create_default_system,
                replies,
            ) matches Decision::Done(Err(_)),
            Decision::Done(Err(_)) => true,
            Decision::Ask(_) => false,
        },
    ensures
        compiling(policies, names, create_default_system, replies) matches Decision::Done(Err(e))
            && names_no_system(e) && (all_say_why(replies) ==> e.len() > 0),
{
    lemma_stages_name_no_system(policies, names, create_default_system, replies);
    if all_say_why(replies) {
        lemma_failure_reports_errors(policies, names, create_default_system, replies);
    }
}

/// Compiling every system reports no unknown one. Every name that it asks for is declared in the
/// files; so a failure comes from reading, parsing or compiling, if the validated systems hold
/// every declared one.
pub proof fn lemma_all_systems_are_known(files: Seq<Seq<char>>, replies: Replies)
    requires
        none_blames_a_system(replies),
        match (reading(files, replies), replies.systems) {
            (Decision::Done(Ok(policies)), Some(Ok(systems))) => {
                forall|i: int|
                    0 <= i < all_systems(policies).len() ==> texts(systems@).contains(
                        #[trigger] all_systems(policies)[i],
                    )
            },
            _ => true,
        },
    ensures
        compiling_all_systems(files, replies) matches Decision::Done(Err(e)) ==> names_no_system(e),
        all_say_why(replies) ==> (compiling_all_systems(files, replies) matches Decision::Done(
            Err(e),
        ) ==> e.len() > 0),
{
    if files.len() <= replies.files@.len() {
        lemma_outcome_errors_name_no_system(replies.files@, files.len());
    }
    if all_say_why(replies) {
        lemma_failure_reports_errors_for_files(files, Seq::empty(), replies);
    }
    if let Decision::Done(Ok(policies)) = reading(files, replies) {
        let names = all_systems(policies);
        lemma_stages_name_no_system(policies.len(), names, false, replies);
        if let Decision::Done(Ok(count)) = declaring(policies.len(), replies) {
            if let Decision::Done(Ok(systems)) = validating(count, names, false, replies) {
                lemma_no_unknown_names(names, systems, names.len());
                lemma_reducing_names_no_system(count, names, systems, replies.reduced@, 0);
            }
        }
    }
}

/// Files with errors end the compilation before any stage is asked for anything, with all the
/// errors in all the files, whatever is to be compiled.
pub proof fn lemma_bad_files_end_the_compilation(
    files: Seq<Seq<char>>,
    names: Seq<Seq<char>>,
    replies: Replies,
)
    requires
        replies.files@.len() >= files.len(),
        outcome_errors(replies.files@, files.len()).len() > 0,
    ensures
        ({
            let errors = outcome_errors(replies.files@, files.len());
            &&& compiling_combined(files, replies) == Decision::<Seq<char>>::Done(Err(errors))
            &&& compiling_systems(files, names, replies) == Decision::<
                Map<Seq<char>, Seq<char>>,
            >::Done(Err(errors))
            &&& compiling_all_systems(files, replies) == Decision::<
                Map<Seq<char>, Seq<char>>,
            >::Done(Err(errors))
        }),
{
}

/// The errors of a step are those of its outcomes, so there are none exactly if no outcome holds
/// one.
pub proof fn lemma_step_errors<T>(outcomes: Seq<Result<T, CascadeErrors>>, count: nat)
    requires
        count <= outcomes.len(),
    ensures
        outcome_errors(outcomes, count).len() == 0 <==> (forall|i: int|
            0 <= i < count ==> ((#[trigger] outcomes[i]) matches Err(e) ==> e@.len() == 0)),
    decreases count,
{
    if count > 0 {
        lemma_step_errors(outcomes, (count - 1) as nat);
    }
}

/// Whether a step goes well does not depend on the order of the policies.
pub proof fn lemma_order_of_policies_is_free<T>(
    outcomes: Seq<Result<T, CascadeErrors>>,
    reordered: Seq<Result<T, CascadeErrors>>,
)
    requires
        outcomes.to_multiset() == reordered.to_multiset(),
    ensures
        outcome_errors(outcomes, outcomes.len()).len() == 0 <==> outcome_errors(
            reordered,
            reordered.len(),
        ).len() == 0,
{
    lemma_step_errors(outcomes, outcomes.len());
    lemma_step_errors(reordered, reordered.len());
    outcomes.to_multiset_ensures();
    reordered.to_multiset_ensures();
    assert forall|i: int| 0 <= i < outcomes.len() implies reordered.contains(
        #[trigger] outcomes[i],
    ) by {
        assert(outcomes.contains(outcomes[i]));
        assert(outcomes.to_multiset().count(outcomes[i]) > 0);
        assert(reordered.to_multiset().count(outcomes[i]) > 0);
    }
    assert forall|i: int| 0 <= i < reordered.len() implies outcomes.contains(
        #[trigger] reordered[i],
    ) by {
        assert(reordered.contains(reordered[i]));
        assert(reordered.to_multiset().count(reordered[i]) > 0);
        assert(outcomes.to_multiset().count(reordered[i]) > 0);
    }
}

/// Each name that no system has is one error that says so. If every other system can be reduced,
/// those are all the errors, in the order of the names.
pub proof fn lemma_unknown_systems_are_reported(
    policies: nat,
    names: Seq<Seq<char>>,
    systems: Seq<Seq<char>>,
    replies: Replies,
)
    requires
        reduced_up_to(names, systems, replies.reduced@, names.len()),
        known_count(names, systems, names.len()) < names.len(),
    ensures
        ({
            let unknown = names.filter(|n: Seq<char>| !systems.contains(n));
            &&& unknown.len() > 0
            &&& writing(policies, names, systems, replies) == Decision::<
                Map<Seq<char>, Seq<char>>,
            >::Done(Err(unknown.map_values(|n: Seq<char>| invalid_system(n, systems))))
        }),
{
    lemma_unknown_errors(names, systems, names.len());
    lemma_reducing_succeeds(policies, names, systems, replies.reduced@, 0);
    assert(names.take(names.len() as int) =~= names);
}

/// The errors for unknown names, by the names themselves.
proof fn lemma_unknown_errors(names: Seq<Seq<char>>, systems: Seq<Seq<char>>, count: nat)
    requires
        count <= names.len(),
    ensures
        ({
            let unknown = names.take(count as int).filter(|n: Seq<char>| !systems.contains(n));
            &&& unknown.len() + known_count(names, systems, count) == count
            &&& unknown_errors(names, systems, count) == unknown.map_values(
                |n: Seq<char>| invalid_system(n, systems),
            )
        }),
    decreases count,
{
    reveal(Seq::filter);
    let unknown = |n: Seq<char>| !systems.contains(n);
    let error = |n: Seq<char>| invalid_system(n, systems);
    if count > 0 {
        let before = (count - 1) as nat;
        lemma_unknown_errors(names, systems, before);
        let seen = names.take(before as int);
        let next = names.take(count as int);
        assert(next.drop_last() =~= seen);
        assert(next.last() == names[before as int]);
        assert(next.filter(unknown).map_values(error) =~= if unknown(names[before as int]) {
            seen.filter(unknown).map_values(error).push(error(names[before as int]))
        } else {
            seen.filter(unknown).map_values(error)
        });
    } else {
        assert(names.take(0) =~= Seq::empty());
        assert(names.take(0).filter(unknown).map_values(error) =~= Seq::empty());
    }
}

/// If there is an answer without an error for every name that a system has, reducing ends well.
proof fn lemma_reducing_succeeds(
    policies: nat,
    names: Seq<Seq<char>>,
    systems: Seq<Seq<char>>,
    reduced: Seq<Result<Vec<Sexp>, CascadeErrors>>,
    from: nat,
)
    requires
        from <= names.len(),
        reduced_up_to(names, systems, reduced, names.len()),
    ensures
        reducing(policies, names, systems, reduced, from) == Decision::<()>::Done(Ok(())),
    decreases names.len() - from,
{
    if from < names.len() {
        lemma_reducing_succeeds(policies, names, systems, reduced, from + 1);
        lemma_known_count_grows(names, systems, from + 1, names.len());
    }
}

// ---------------------------------------------------------------------------------------------
// Input files
// ---------------------------------------------------------------------------------------------

/// The errors in the first `count` input files, file by file.
pub open spec fn errors_in_files(
    files: Seq<Seq<char>>,
    contents: Seq<FileContent>,
    count: nat,
) -> Seq<ErrorItemView>
    decreases count,
{
    if count == 0 {
        Seq::empty()
    } else {
        errors_in_files(files, contents, (count - 1) as nat) + file_errors(
            files[count - 1],
            contents[count - 1],
        )
    }
}

/// The first `count` answers are what came of loading the first `count` files.
pub open spec fn answered_with(
    files: Seq<Seq<char>>,
    contents: Seq<FileContent>,
    replies: Replies,
    count: nat,
) -> bool {
    &&& count <= files.len()
    &&& count <= contents.len()
    &&& count <= replies.files@.len()
    &&& forall|i: int| 0 <= i < count ==> loaded(files[i], contents[i], #[trigger] replies.files@[i])
}

proof fn lemma_errors_in_files(
    files: Seq<Seq<char>>,
    contents: Seq<FileContent>,
    replies: Replies,
    count: nat,
)
    requires
        answered_with(files, contents, replies, count),
    ensures
        outcome_errors(replies.files@, count) == errors_in_files(files, contents, count),
        errors_in_files(files, contents, count).len() == 0 ==> {
            let policies = loaded_policies(replies.files@, count);
            &&& policies.len() == count
            &&& forall|i: int|
                0 <= i < count ==> replies.files@[i] == Ok::<PolicyFile, CascadeErrors>(
                    #[trigger] policies[i],
                )
        },
    decreases count,
{
    if count > 0 {
        let before = (count - 1) as nat;
        lemma_errors_in_files(files, contents, replies, before);
        assert(loaded(files[before as int], contents[before as int], replies.files@[before as int]));
        let errors = errors_in_files(files, contents, before);
        let more = file_errors(files[before as int], contents[before as int]);
        assert(more.len() == 0 ==> errors + more =~= errors);
    }
}

/// Every input file is read, and the errors in all of them are reported, file by file: that a file
/// could not be read, or the syntax errors in it. If there are none, there is one policy for each
/// file, with its name and its text.
pub proof fn lemma_reading_covers_every_file(
    files: Seq<Seq<char>>,
    contents: Seq<FileContent>,
    replies: Replies,
)
    requires
        answered_with(files, contents, replies, files.len()),
    ensures
        ({
            let errors = errors_in_files(files, contents, files.len());
            match reading(files, replies) {
                Decision::Ask(_) => false,
                Decision::Done(Err(e)) => errors.len() > 0 && e == errors,
                Decision::Done(Ok(policies)) => {
                    &&& errors.len() == 0
                    &&& policies.len() == files.len()
                    &&& forall|i: int|
                        0 <= i < files.len() ==> loaded(
                            files[i],
                            contents[i],
                            Ok(#[trigger] policies[i]),
                        )
                },
            }
        }),
{
    lemma_errors_in_files(files, contents, replies, files.len());
    if errors_in_files(files, contents, files.len()).len() == 0 {
        let policies = loaded_policies(replies.files@, files.len());
        assert forall|i: int| 0 <= i < files.len() implies loaded(
            files[i],
            contents[i],
            Ok(#[trigger] policies[i]),
        ) by {
            assert(loaded(files[i], contents[i], replies.files@[i]));
        }
    }
}

// ---------------------------------------------------------------------------------------------
// CIL
// ---------------------------------------------------------------------------------------------

/// The CIL of two lists of s-expressions together is that of the first, a line break, and that of
/// the second.
pub proof fn lemma_cil_of_two_parts(first: Seq<Sexp>, second: Seq<Sexp>)
    requires
        first.len() > 0,
        second.len() > 0,
    ensures
        cil_policy(first + second) == cil_policy(first) + "\n"@ + cil_policy(second),
{
    assert(cil_lines(first + second) =~= cil_lines(first) + cil_lines(second));
    lemma_joined_concat(cil_lines(first), cil_lines(second), "\n"@);
}

} // verus!
