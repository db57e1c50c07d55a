//! What every step of a compilation asks for and reports, said of the answers themselves.
use vstd::prelude::*;

use crate::ast::{
    declared_systems, lemma_declared_systems_are_in_the_policy, Declaration, Expression, PolicyFile,
};
use crate::dialogue::{Decision, Replies, RequestView};
use crate::error::{CascadeErrors, ErrorItemView};
use crate::laws::{
    failed_with, lemma_all_known, lemma_each_system_has_its_own_policy,
    lemma_first_failing_reduction_is_reported, lemma_success_gives_the_named_systems,
    lemma_success_means_no_errors, lemma_unknown_systems_are_reported,
};
use crate::plan::{
    all_systems, compiling, compiling_all_systems, compiling_combined, compiling_systems,
    declaring, default_system_due, known_count, lemma_known_count_grows, loaded_policies,
    numbered_policies, outcome_errors, reading, reduced_up_to, reducing, validating,
};
use crate::progress::lemma_reducing_asks;
use crate::sexp::{cil_policy, Sexp};
use crate::text::{joined, lemma_texts, texts};

verus! {

// ---------------------------------------------------------------------------------------------
// Outcomes
// ---------------------------------------------------------------------------------------------

/// The errors in one outcome.
pub open spec fn errors_of<T>(outcome: Result<T, CascadeErrors>) -> Seq<ErrorItemView> {
    match outcome {
        Ok(_) => Seq::empty(),
        Err(e) => e@,
    }
}

/// The errors in the first outcomes, one after the other.
pub open spec fn errors_in_order<T>(
    outcomes: Seq<Result<T, CascadeErrors>>,
    count: nat,
) -> Seq<ErrorItemView> {
    outcomes.take(count as int).map_values(|o: Result<T, CascadeErrors>| errors_of(o)).flatten()
}

/// There is an outcome for each of so many policies, and none of them holds an error.
pub open spec fn all_went_well<T>(outcomes: Seq<Result<T, CascadeErrors>>, count: nat) -> bool {
    &&& count <= outcomes.len()
    &&& forall|i: int| 0 <= i < count ==> errors_of(#[trigger] outcomes[i]).len() == 0
}

/// A step reports every error in every one of its outcomes, in their order, and nothing else.
pub proof fn lemma_no_error_of_a_step_is_lost<T>(
    outcomes: Seq<Result<T, CascadeErrors>>,
    count: nat,
)
    requires
        count <= outcomes.len(),
    ensures
        outcome_errors(outcomes, count) == errors_in_order(outcomes, count),
        outcome_errors(outcomes, count) == outcomes.take(count as int).map_values(
            |o: Result<T, CascadeErrors>|
                match o {
                    Ok(_) => Seq::<ErrorItemView>::empty(),
                    Err(e) => e@,
                },
        ).flatten(),
        outcome_errors(outcomes, count).len() == 0 <==> all_went_well(outcomes, count),
        outcome_errors(outcomes, count).len() == 0 <==> (forall|i: int|
            0 <= i < count ==> ((#[trigger] outcomes[i]) matches Err(e) ==> e@.len() == 0)),
    decreases count,
{
    let errors = |o: Result<T, CascadeErrors>| errors_of(o);
    assert(outcomes.take(count as int).map_values(
        |o: Result<T, CascadeErrors>|
            match o {
                Ok(_) => Seq::<ErrorItemView>::empty(),
                Err(e) => e@,
            },
    ) =~= outcomes.take(count as int).map_values(errors));
    if count > 0 {
        let before = (count - 1) as nat;
        lemma_no_error_of_a_step_is_lost(outcomes, before);
        let seen = outcomes.take(before as int).map_values(errors);
        let last = errors_of(outcomes[before as int]);
        assert(outcomes.take(count as int).map_values(errors) =~= seen.push(last));
        seen.lemma_flatten_push(last);
        assert(outcome_errors(outcomes, count) =~= outcome_errors(outcomes, before) + last);
    } else {
        assert(outcomes.take(0).map_values(errors) =~= Seq::empty());
    }
}

/// The same for the outcomes of the four steps that go through all policies, as far as they are
/// there.
proof fn lemma_no_error_is_lost(policies: nat, replies: Replies)
    ensures
        policies <= replies.type_maps@.len() ==> {
            let errors = outcome_errors(replies.type_maps@, policies);
            &&& errors == errors_in_order(replies.type_maps@, policies)
            &&& errors.len() == 0 <==> all_went_well(replies.type_maps@, policies)
        },
        policies <= replies.global_bindings@.len() ==> {
            let errors = outcome_errors(replies.global_bindings@, policies);
            &&& errors == errors_in_order(replies.global_bindings@, policies)
            &&& errors.len() == 0 <==> all_went_well(replies.global_bindings@, policies)
        },
        policies <= replies.extends@.len() ==> {
            let errors = outcome_errors(replies.extends@, policies);
            &&& errors == errors_in_order(replies.extends@, policies)
            &&& errors.len() == 0 <==> all_went_well(replies.extends@, policies)
        },
        policies <= replies.func_maps@.len() ==> {
            let errors = outcome_errors(replies.func_maps@, policies);
            &&& errors == errors_in_order(replies.func_maps@, policies)
            &&& errors.len() == 0 <==> all_went_well(replies.func_maps@, policies)
        },
{
    if policies <= replies.type_maps@.len() {
        lemma_no_error_of_a_step_is_lost(replies.type_maps@, policies);
    }
    if policies <= replies.global_bindings@.len() {
        lemma_no_error_of_a_step_is_lost(replies.global_bindings@, policies);
    }
    if policies <= replies.extends@.len() {
        lemma_no_error_of_a_step_is_lost(replies.extends@, policies);
    }
    if policies <= replies.func_maps@.len() {
        lemma_no_error_of_a_step_is_lost(replies.func_maps@, policies);
    }
}

// ---------------------------------------------------------------------------------------------
// Declarations
// ---------------------------------------------------------------------------------------------

/// The built-in types are there, and the types of every policy have been added.
pub open spec fn types_clean(policies: nat, replies: Replies) -> bool {
    &&& replies.built_in_types matches Some(Ok(_))
    &&& all_went_well(replies.type_maps@, policies)
}

/// The types are there, and the global symbols of every policy have been bound.
pub open spec fn bindings_clean(policies: nat, replies: Replies) -> bool {
    &&& types_clean(policies, replies)
    &&& all_went_well(replies.global_bindings@, policies)
}

/// The symbols are bound, the aliases of the types are set, and the extensions in every policy have
/// been checked.
pub open spec fn extends_clean(policies: nat, replies: Replies) -> bool {
    &&& bindings_clean(policies, replies)
    &&& replies.type_aliases
    &&& all_went_well(replies.extends@, policies)
}

/// The extensions are right, the functions of every policy have been collected, and the annotations
/// have been applied, with the types that came out of them.
pub open spec fn annotations_clean(policies: nat, replies: Replies) -> bool {
    &&& extends_clean(policies, replies)
    &&& all_went_well(replies.func_maps@, policies)
    &&& replies.associated matches Some(associated)
    &&& errors_of(associated).len() == 0
    &&& associated is Ok ==> {
        &&& replies.associated_type_map matches Some(added)
        &&& errors_of(added).len() == 0
    }
}

/// How many policies there are once the annotations have been applied: one more than before, if
/// they gave rise to one and its types were added.
pub open spec fn policy_count(policies: nat, replies: Replies) -> nat {
    if (replies.associated matches Some(Ok(_))) && (replies.associated_type_map matches Some(
        Ok(_),
    )) {
        policies + 1
    } else {
        policies
    }
}

/// When each request about the declarations is made: in the order of the steps, for each policy in
/// turn, and only if no answer so far holds an error that ends the compilation.
pub proof fn lemma_declaration_requests(
    policies: nat,
    names: Seq<Seq<char>>,
    create_default_system: bool,
    replies: Replies,
    i: nat,
)
    ensures
        ({
            let next = compiling(policies, names, create_default_system, replies);
            &&& asks(next, RequestView::BuiltInTypes) <==> replies.built_in_types is None
            &&& asks(next, RequestView::ExtendTypeMap(i)) <==> {
                &&& replies.built_in_types matches Some(Ok(_))
                &&& i == replies.type_maps@.len()
                &&& i < policies
            }
            &&& asks(next, RequestView::GlobalBindings(i)) <==> {
                &&& types_clean(policies, replies)
                &&& i == replies.global_bindings@.len()
                &&& i < policies
            }
            &&& asks(next, RequestView::TypeAliases) <==> {
                &&& bindings_clean(policies, replies)
                &&& !replies.type_aliases
            }
            &&& asks(next, RequestView::VerifyExtends(i)) <==> {
                &&& bindings_clean(policies, replies)
                &&& replies.type_aliases
                &&& i == replies.extends@.len()
                &&& i < policies
            }
            &&& asks(next, RequestView::BuildFuncMap(i)) <==> {
                &&& extends_clean(policies, replies)
                &&& i == replies.func_maps@.len()
                &&& i < policies
            }
            &&& asks(next, RequestView::AssociateAnnotations) <==> {
                &&& extends_clean(policies, replies)
                &&& replies.func_maps@.len() >= policies
                &&& replies.associated is None
            }
            &&& asks(next, RequestView::ExtendAssociated) <==> {
                &&& extends_clean(policies, replies)
                &&& replies.func_maps@.len() >= policies
                &&& replies.associated matches Some(Ok(_))
                &&& replies.associated_type_map is None
            }
        }),
{
    lemma_no_error_is_lost(policies, replies);
    lemma_later_requests(policies, names, create_default_system, replies);
}

/// The next thing is this request.
pub open spec fn asks<T>(next: Decision<T>, request: RequestView) -> bool {
    next == Decision::<T>::Ask(request)
}

/// What is asked for once the declarations are there is about modules or systems.
proof fn lemma_later_requests(
    policies: nat,
    names: Seq<Seq<char>>,
    create_default_system: bool,
    replies: Replies,
)
    ensures
        declaring(policies, replies) matches Decision::Done(Ok(count)) ==> (compiling(
            policies,
            names,
            create_default_system,
            replies,
        ) matches Decision::Ask(q) ==> {
            ||| q is ValidateModules
            ||| q is ModuleAliases
            ||| q is ValidateSystems
            ||| q is DefaultModule
            ||| q is TypeNames
            ||| q is InsertSystem
            ||| q is ReducedInfos
        }),
        declaring(policies, replies) matches Decision::Done(Ok(count)) ==> (validating(
            count,
            names,
            create_default_system,
            replies,
        ) matches Decision::Done(Ok(_)) ==> (compiling(
            policies,
            names,
            create_default_system,
            replies,
        ) matches Decision::Ask(q) ==> q is ReducedInfos)),
{
    if let Decision::Done(Ok(count)) = declaring(policies, replies) {
        if let Decision::Done(Ok(systems)) = validating(
            count,
            names,
            create_default_system,
            replies,
        ) {
            lemma_reducing_asks(count, names, systems, replies.reduced@, 0);
        }
    }
}

/// The extensions are right, and the answers on the functions and on the annotations are all there.
pub open spec fn annotations_answered(policies: nat, replies: Replies) -> bool {
    &&& extends_clean(policies, replies)
    &&& replies.func_maps@.len() >= policies
    &&& replies.associated is Some
    &&& replies.associated->0 is Ok ==> replies.associated_type_map is Some
}

/// What each failing step of the declarations reports: all the errors in all its answers, in their
/// order, and nothing of any other step. Those in the functions and those in the annotations, or
/// in the types that came out of them, are reported together.
pub proof fn lemma_declaration_failures(
    policies: nat,
    names: Seq<Seq<char>>,
    create_default_system: bool,
    replies: Replies,
)
    ensures
        ({
            let next = compiling(policies, names, create_default_system, replies);
            let functions = errors_in_order(replies.func_maps@, policies);
            &&& replies.built_in_types matches Some(Err(e)) ==> failed_with(next, e@)
            &&& (replies.built_in_types matches Some(Ok(_))) && replies.type_maps@.len() >= policies
                && !types_clean(policies, replies) ==> failed_with(
                next,
                errors_in_order(replies.type_maps@, policies),
            )
            &&& types_clean(policies, replies) && replies.global_bindings@.len() >= policies
                && !bindings_clean(policies, replies) ==> failed_with(
                next,
                errors_in_order(replies.global_bindings@, policies),
            )
            &&& bindings_clean(policies, replies) && replies.type_aliases && replies.extends@.len()
                >= policies && !extends_clean(policies, replies) ==> failed_with(
                next,
                errors_in_order(replies.extends@, policies),
            )
            &&& annotations_answered(policies, replies) && !annotations_clean(policies, replies)
                ==> match replies.associated->0 {
                Err(e) => failed_with(next, functions + e@),
                Ok(_) => match replies.associated_type_map->0 {
                    Err(e) => failed_with(next, functions + e@),
                    Ok(_) => failed_with(next, functions),
                },
            }
        }),
{
    lemma_no_error_is_lost(policies, replies);
    let functions = errors_in_order(replies.func_maps@, policies);
    assert(functions + Seq::<ErrorItemView>::empty() =~= functions);
}

/// Annotations that were rejected end the compilation. Whatever the other answers are, it does not
/// succeed, and no step behind the annotations is taken; once the steps before have gone well, all
/// the errors are reported behind those in the functions. The same holds if the types that came
/// out of the annotations were rejected.
pub proof fn lemma_rejected_annotations_end_the_compilation(
    policies: nat,
    names: Seq<Seq<char>>,
    create_default_system: bool,
    replies: Replies,
    errors: CascadeErrors,
)
    requires
        errors@.len() > 0,
        ({
            ||| replies.associated == Some(Err::<PolicyFile, CascadeErrors>(errors))
            ||| (replies.associated matches Some(Ok(_))) && replies.associated_type_map == Some(
                Err::<(), CascadeErrors>(errors),
            )
        }),
    ensures
        ({
            let next = compiling(policies, names, create_default_system, replies);
            &&& !(next matches Decision::Done(Ok(_)))
            &&& next matches Decision::Ask(q) ==> {
                ||| q is BuiltInTypes
                ||| q is ExtendTypeMap
                ||| q is GlobalBindings
                ||| q is TypeAliases
                ||| q is VerifyExtends
                ||| q is BuildFuncMap
            }
            &&& extends_clean(policies, replies) && replies.func_maps@.len() >= policies
                ==> failed_with(next, errors_in_order(replies.func_maps@, policies) + errors@)
        }),
{
    lemma_no_error_is_lost(policies, replies);
}

// ---------------------------------------------------------------------------------------------
// Modules and systems
// ---------------------------------------------------------------------------------------------

/// The declarations are there and the modules have been validated.
pub open spec fn modules_clean(policies: nat, replies: Replies) -> bool {
    &&& annotations_clean(policies, replies)
    &&& replies.modules matches Some(Ok(_))
    &&& replies.module_aliases
}

/// The systems have been validated too, and the default system, if one is to be made, is added.
pub open spec fn systems_clean(
    policies: nat,
    create_default_system: bool,
    replies: Replies,
) -> bool {
    &&& modules_clean(policies, replies)
    &&& replies.systems matches Some(Ok(_))
    &&& create_default_system ==> {
        &&& replies.default_module matches Some(Ok(_))
        &&& replies.type_names is Some
        &&& replies.default_system matches Some(Ok(_))
    }
}

/// The systems that there are: those that were validated, or those that there are with the default
/// system among them.
pub open spec fn systems_there(create_default_system: bool, replies: Replies) -> Seq<Seq<char>> {
    if create_default_system {
        texts(replies.default_system->0->Ok_0@)
    } else {
        texts(replies.systems->0->Ok_0@)
    }
}

/// The declarations are done exactly if they went well, with as many policies as there are then.
proof fn lemma_declared(policies: nat, replies: Replies)
    ensures
        annotations_clean(policies, replies) <==> (declaring(policies, replies) matches
            Decision::Done(Ok(_))),
        annotations_clean(policies, replies) ==> declaring(policies, replies) == Decision::<
            nat,
        >::Done(Ok(policy_count(policies, replies))),
{
    lemma_no_error_is_lost(policies, replies);
}

/// The systems are there exactly if everything before went well.
proof fn lemma_validated(
    policies: nat,
    names: Seq<Seq<char>>,
    create_default_system: bool,
    replies: Replies,
)
    requires
        annotations_clean(policies, replies),
    ensures
        ({
            let result = validating(
                policy_count(policies, replies),
                names,
                create_default_system,
                replies,
            );
            &&& systems_clean(policies, create_default_system, replies) <==> (result matches
                Decision::Done(Ok(_)))
            &&& systems_clean(policies, create_default_system, replies) ==> result == Decision::<
                Seq<Seq<char>>,
            >::Done(Ok(systems_there(create_default_system, replies)))
        }),
{
}

/// When each request about modules and systems is made, and what it says. Modules and systems are
/// validated for all policies, that of the annotations among them. The module of the default
/// system starts out empty.
pub proof fn lemma_validation_requests(
    policies: nat,
    names: Seq<Seq<char>>,
    create_default_system: bool,
    replies: Replies,
    request: RequestView,
)
    ensures
        ({
            let next = compiling(policies, names, create_default_system, replies);
            let default_due = {
                &&& modules_clean(policies, replies)
                &&& replies.systems matches Some(Ok(_))
                &&& create_default_system
            };
            match request {
                RequestView::ValidateModules(count) => asks(next, request) <==> {
                    &&& annotations_clean(policies, replies)
                    &&& replies.modules is None
                    &&& count == policy_count(policies, replies)
                },
                RequestView::ModuleAliases => asks(next, request) <==> {
                    &&& annotations_clean(policies, replies)
                    &&& replies.modules matches Some(Ok(_))
                    &&& !replies.module_aliases
                },
                RequestView::ValidateSystems(count) => asks(next, request) <==> {
                    &&& modules_clean(policies, replies)
                    &&& replies.systems is None
                    &&& count == policy_count(policies, replies)
                },
                RequestView::DefaultModule(module) => asks(next, request) <==> {
                    &&& default_due
                    &&& replies.default_module is None
                    &&& module.name == "module"@
                    &&& module.types == Set::<Seq<char>>::empty()
                },
                RequestView::TypeNames => asks(next, request) <==> {
                    &&& default_due
                    &&& replies.default_module matches Some(Ok(_))
                    &&& replies.type_names is None
                },
                RequestView::InsertSystem(system) => asks(next, request) <==> {
                    &&& default_due
                    &&& replies.default_module matches Some(Ok(_))
                    &&& replies.type_names matches Some(types)
                    &&& replies.default_system is None
                    &&& system.name == names[0]
                    &&& system.handle_unknown_perms == "allow"@
                    &&& system.module.name == "module"@
                    &&& forall|t: Seq<char>| #[trigger]
                        system.module.types.contains(t) <==> has_string(types@, t)
                },
                _ => true,
            }
        }),
{
    lemma_declared(policies, replies);
    lemma_later_requests(policies, names, create_default_system, replies);
    lemma_no_error_is_lost(policies, replies);
    if annotations_clean(policies, replies) {
        lemma_validated(policies, names, create_default_system, replies);
    }
    if let Some(types) = replies.type_names {
        lemma_has_string(types@);
        if let RequestView::InsertSystem(system) = request {
            if forall|t: Seq<char>| #[trigger]
                system.module.types.contains(t) <==> has_string(types@, t) {
                assert(system.module.types =~= texts(types@).to_set());
            }
        }
    }
}

/// One of the strings in a list has this text.
pub open spec fn has_string(list: Seq<String>, text: Seq<char>) -> bool {
    exists|i: int| 0 <= i < list.len() && (#[trigger] list[i])@ == text
}

proof fn lemma_has_string(list: Seq<String>)
    ensures
        forall|text: Seq<char>| #[trigger]
            has_string(list, text) <==> texts(list).contains(text),
{
    lemma_texts(list);
    assert forall|text: Seq<char>| #[trigger]
        has_string(list, text) <==> texts(list).contains(text) by {
        if has_string(list, text) {
            let i = choose|i: int| 0 <= i < list.len() && (#[trigger] list[i])@ == text;
            assert(texts(list)[i] == text);
        }
        if texts(list).contains(text) {
            let i = choose|i: int| 0 <= i < texts(list).len() && texts(list)[i] == text;
            assert(list[i]@ == text);
        }
    }
}

/// The default system of the combined policy is named `out`, allows unknown permissions, and its
/// module holds every type that there is and no other.
pub proof fn lemma_combined_holds_every_type(files: Seq<Seq<char>>, replies: Replies)
    ensures
        compiling_combined(files, replies) matches Decision::Ask(RequestView::InsertSystem(s))
            ==> {
            &&& replies.type_names is Some
            &&& s.name == "out"@
            &&& s.handle_unknown_perms == "allow"@
            &&& s.module.name == "module"@
            &&& forall|t: Seq<char>| #[trigger]
                s.module.types.contains(t) <==> has_string(replies.type_names->0@, t)
            &&& forall|t: Seq<char>| #[trigger]
                s.module.types.contains(t) <==> texts(replies.type_names->0@).contains(t)
        },
{
    if let Some(types) = replies.type_names {
        lemma_has_string(types@);
    }
    if let Decision::Ask(request) = compiling_combined(files, replies) {
        if let Decision::Done(Ok(policies)) = reading(files, replies) {
            lemma_validation_requests(policies.len(), seq!["out"@], true, replies, request);
        }
    }
}

/// What each failing step of the validation reports: all the errors of that step and no others. A
/// default module that does not validate is an internal error.
pub proof fn lemma_validation_failures(
    policies: nat,
    names: Seq<Seq<char>>,
    create_default_system: bool,
    replies: Replies,
)
    ensures
        ({
            let next = compiling(policies, names, create_default_system, replies);
            let default_due = {
                &&& modules_clean(policies, replies)
                &&& replies.systems matches Some(Ok(_))
                &&& create_default_system
            };
            &&& annotations_clean(policies, replies) ==> (replies.modules matches Some(Err(e))
                ==> failed_with(next, e@))
            &&& modules_clean(policies, replies) ==> (replies.systems matches Some(Err(e))
                ==> failed_with(next, e@))
            &&& default_due && (replies.default_module matches Some(Err(_))) ==> failed_with(
                next,
                seq![ErrorItemView::Internal],
            )
            &&& default_due && (replies.default_module matches Some(Ok(_)))
                && replies.type_names is Some ==> (replies.default_system matches Some(Err(e))
                ==> failed_with(next, e@))
        }),
{
    lemma_declared(policies, replies);
}

/// The default system is made once everything before it has been answered well.
pub proof fn lemma_default_system_is_due(replies: Replies)
    ensures
        default_system_due(replies) <==> {
            &&& replies.modules matches Some(Ok(_))
            &&& replies.module_aliases
            &&& replies.systems matches Some(Ok(_))
            &&& replies.default_module matches Some(Ok(_))
            &&& replies.type_names is Some
        },
{
}

// ---------------------------------------------------------------------------------------------
// Writing the systems
// ---------------------------------------------------------------------------------------------

/// The names in the list that a system has, in their order.
pub open spec fn known_names(names: Seq<Seq<char>>, systems: Seq<Seq<char>>) -> Seq<Seq<char>> {
    names.filter(|n: Seq<char>| systems.contains(n))
}

/// The names in the list that no system has, in their order.
pub open spec fn unknown_names(names: Seq<Seq<char>>, systems: Seq<Seq<char>>) -> Seq<Seq<char>> {
    names.filter(|n: Seq<char>| !systems.contains(n))
}

/// There are as many answers for the first names as there are names of systems among them.
proof fn lemma_known_count(names: Seq<Seq<char>>, systems: Seq<Seq<char>>, count: nat)
    requires
        count <= names.len(),
    ensures
        known_count(names, systems, count) == known_names(names.take(count as int), systems).len(),
    decreases count,
{
    reveal(Seq::filter);
    if count > 0 {
        lemma_known_count(names, systems, (count - 1) as nat);
        assert(names.take(count as int).drop_last() =~= names.take(count - 1));
        assert(names.take(count as int).last() == names[count - 1]);
    }
}

/// Which system is asked for: the first one in the list, among those that there are, that has no
/// answer yet. It is asked for by its name and its place, for all policies.
pub proof fn lemma_reduction_requests(
    policies: nat,
    names: Seq<Seq<char>>,
    create_default_system: bool,
    replies: Replies,
    position: nat,
    system: Seq<char>,
    count: nat,
)
    ensures
        ({
            let next = compiling(policies, names, create_default_system, replies);
            let there = systems_there(create_default_system, replies);
            asks(next, RequestView::ReducedInfos { position, system, policies: count }) <==> {
                &&& systems_clean(policies, create_default_system, replies)
                &&& position < names.len()
                &&& system == names[position as int]
                &&& there.contains(system)
                &&& count == policy_count(policies, replies)
                &&& replies.reduced@.len() == known_names(
                    names.take(position as int),
                    there,
                ).len()
                &&& forall|k: int|
                    0 <= k < replies.reduced@.len() ==> #[trigger] replies.reduced@[k] is Ok
            }
        }),
{
    let next = compiling(policies, names, create_default_system, replies);
    let there = systems_there(create_default_system, replies);
    let total = policy_count(policies, replies);
    lemma_declared(policies, replies);
    lemma_no_error_is_lost(policies, replies);
    if annotations_clean(policies, replies) {
        lemma_validated(policies, names, create_default_system, replies);
        if systems_clean(policies, create_default_system, replies) {
            lemma_reducing_asks(total, names, there, replies.reduced@, 0);
            if let Decision::Ask(q) = reducing(total, names, there, replies.reduced@, 0) {
                lemma_asking_means_no_failure(total, names, there, replies.reduced@, 0);
                lemma_known_count(names, there, q->ReducedInfos_position);
            }
            if {
                &&& position < names.len()
                &&& there.contains(names[position as int])
                &&& replies.reduced@.len() == known_names(
                    names.take(position as int),
                    there,
                ).len()
                &&& forall|k: int|
                    0 <= k < replies.reduced@.len() ==> #[trigger] replies.reduced@[k] is Ok
            } {
                lemma_known_count(names, there, position);
                lemma_reducing_asks_at(total, names, there, replies.reduced@, 0, position);
            }
        }
    }
}

/// While a system is asked for, no answer so far is a failure.
proof fn lemma_asking_means_no_failure(
    policies: nat,
    names: Seq<Seq<char>>,
    systems: Seq<Seq<char>>,
    reduced: Seq<Result<Vec<Sexp>, CascadeErrors>>,
    from: nat,
)
    requires
        known_count(names, systems, from) <= reduced.len(),
        reducing(policies, names, systems, reduced, from) is Ask,
    ensures
        forall|k: int|
            known_count(names, systems, from) <= k < reduced.len() ==> #[trigger] reduced[k] is Ok,
    decreases names.len() - from,
{
    let known = known_count(names, systems, from);
    if from < names.len() {
        if !systems.contains(names[from as int]) || known < reduced.len() {
            lemma_asking_means_no_failure(policies, names, systems, reduced, from + 1);
        }
    }
}

/// If there are answers for just the systems before a place, the system there is asked for.
proof fn lemma_reducing_asks_at(
    policies: nat,
    names: Seq<Seq<char>>,
    systems: Seq<Seq<char>>,
    reduced: Seq<Result<Vec<Sexp>, CascadeErrors>>,
    from: nat,
    position: nat,
)
    requires
        from <= position < names.len(),
        systems.contains(names[position as int]),
        known_count(names, systems, position) == reduced.len(),
        forall|k: int| 0 <= k < reduced.len() ==> #[trigger] reduced[k] is Ok,
    ensures
        reducing(policies, names, systems, reduced, from) == Decision::<()>::Ask(
            RequestView::ReducedInfos { position, system: names[position as int], policies },
        ),
    decreases position - from,
{
    if from < position {
        lemma_known_count_grows(names, systems, from + 1, position);
        lemma_reducing_asks_at(policies, names, systems, reduced, from + 1, position);
    }
}

/// The first system that cannot be reduced ends the compilation with all its errors and no others.
pub proof fn lemma_reduction_failure(
    policies: nat,
    names: Seq<Seq<char>>,
    create_default_system: bool,
    replies: Replies,
    failing: nat,
    errors: CascadeErrors,
)
    requires
        systems_clean(policies, create_default_system, replies),
        failing < replies.reduced@.len(),
        failing < known_names(names, systems_there(create_default_system, replies)).len(),
        forall|k: int| 0 <= k < failing ==> #[trigger] replies.reduced@[k] is Ok,
        replies.reduced@[failing as int] == Err::<Vec<Sexp>, CascadeErrors>(errors),
    ensures
        failed_with(compiling(policies, names, create_default_system, replies), errors@),
{
    let there = systems_there(create_default_system, replies);
    lemma_declared(policies, replies);
    lemma_validated(policies, names, create_default_system, replies);
    lemma_known_count(names, there, names.len());
    assert(names.take(names.len() as int) =~= names);
    lemma_first_failing_reduction_is_reported(
        policy_count(policies, replies),
        names,
        there,
        replies,
        failing,
    );
}

/// There is an answer without a failure for every name in the list that a system has.
pub open spec fn all_reduced(
    names: Seq<Seq<char>>,
    create_default_system: bool,
    replies: Replies,
) -> bool {
    let count = known_names(names, systems_there(create_default_system, replies)).len();
    &&& count <= replies.reduced@.len()
    &&& forall|k: int| 0 <= k < count ==> #[trigger] replies.reduced@[k] is Ok
}

/// Every name that no system has is reported, in the order of the list: the name, and the names of
/// all the systems that there are.
pub proof fn lemma_unknown_names_are_reported(
    policies: nat,
    names: Seq<Seq<char>>,
    create_default_system: bool,
    replies: Replies,
)
    requires
        systems_clean(policies, create_default_system, replies),
        all_reduced(names, create_default_system, replies),
        unknown_names(names, systems_there(create_default_system, replies)).len() > 0,
    ensures
        ({
            let there = systems_there(create_default_system, replies);
            let unknown = unknown_names(names, there);
            let next = compiling(policies, names, create_default_system, replies);
            &&& next matches Decision::Done(Err(_))
            &&& next->Done_0->Err_0.len() == unknown.len()
            &&& forall|i: int|
                0 <= i < unknown.len() ==> #[trigger] next->Done_0->Err_0[i] == (
                ErrorItemView::InvalidSystem {
                    message: "System "@ + unknown[i] + " does not exist.\nThe valid systems are "@
                        + joined(there, ", "@),
                })
        }),
{
    let there = systems_there(create_default_system, replies);
    lemma_declared(policies, replies);
    lemma_validated(policies, names, create_default_system, replies);
    lemma_known_count(names, there, names.len());
    assert(names.take(names.len() as int) =~= names);
    lemma_known_and_unknown(names, there);
    assert(reduced_up_to(names, there, replies.reduced@, names.len()));
    lemma_unknown_systems_are_reported(policy_count(policies, replies), names, there, replies);
}

/// Each name in the list is either known or unknown.
proof fn lemma_known_and_unknown(names: Seq<Seq<char>>, systems: Seq<Seq<char>>)
    ensures
        known_names(names, systems).len() + unknown_names(names, systems).len() == names.len(),
    decreases names.len(),
{
    reveal(Seq::filter);
    if names.len() > 0 {
        lemma_known_and_unknown(names.drop_last(), systems);
    }
}

/// A compilation succeeds exactly if every step was answered without an error, every name in the
/// list is that of a system that there is, and the policies could be reduced for each.
pub proof fn lemma_success_by_answers(
    policies: nat,
    names: Seq<Seq<char>>,
    create_default_system: bool,
    replies: Replies,
)
    ensures
        (compiling(policies, names, create_default_system, replies) matches Decision::Done(Ok(_)))
            <==> {
            &&& systems_clean(policies, create_default_system, replies)
            &&& forall|i: int|
                0 <= i < names.len() ==> systems_there(create_default_system, replies).contains(
                    #[trigger] names[i],
                )
            &&& names.len() <= replies.reduced@.len()
            &&& forall|i: int| 0 <= i < names.len() ==> #[trigger] replies.reduced@[i] is Ok
        },
{
    let there = systems_there(create_default_system, replies);
    lemma_success_means_no_errors(policies, names, create_default_system, replies);
    lemma_declared(policies, replies);
    if annotations_clean(policies, replies) {
        lemma_validated(policies, names, create_default_system, replies);
        if forall|i: int| 0 <= i < names.len() ==> there.contains(#[trigger] names[i]) {
            lemma_all_known(names, there, names.len());
        }
    }
}

/// A compilation does not succeed if there is an error in any answer to any step: for any of the
/// policies, in the annotations, in the modules or the systems, or in a reduction.
pub proof fn lemma_no_success_with_an_error(
    policies: nat,
    names: Seq<Seq<char>>,
    create_default_system: bool,
    replies: Replies,
    i: int,
    errors: CascadeErrors,
)
    requires
        errors@.len() > 0,
        ({
            let failure = Err::<(), CascadeErrors>(errors);
            let failed_systems = Some(Err::<Vec<String>, CascadeErrors>(errors));
            ||| replies.built_in_types == Some(failure)
            ||| 0 <= i < policies && i < replies.type_maps@.len() && replies.type_maps@[i]
                == failure
            ||| 0 <= i < policies && i < replies.global_bindings@.len()
                && replies.global_bindings@[i] == failure
            ||| 0 <= i < policies && i < replies.extends@.len() && replies.extends@[i] == failure
            ||| 0 <= i < policies && i < replies.func_maps@.len() && replies.func_maps@[i]
                == failure
            ||| replies.associated == Some(Err::<PolicyFile, CascadeErrors>(errors))
            ||| (replies.associated matches Some(Ok(_))) && replies.associated_type_map == Some(
                failure,
            )
            ||| replies.modules == Some(failure)
            ||| replies.systems == failed_systems
            ||| create_default_system && replies.default_module == Some(failure)
            ||| create_default_system && replies.default_system == failed_systems
            ||| 0 <= i < names.len() && i < replies.reduced@.len() && replies.reduced@[i] == Err::<
                Vec<Sexp>,
                CascadeErrors,
            >(errors)
        }),
    ensures
        !(compiling(policies, names, create_default_system, replies) matches Decision::Done(Ok(_))),
{
    lemma_success_by_answers(policies, names, create_default_system, replies);
}

/// A compilation does not succeed if a file could not be loaded, whatever is compiled.
pub proof fn lemma_no_success_with_a_bad_file(
    files: Seq<Seq<char>>,
    names: Seq<Seq<char>>,
    replies: Replies,
    i: int,
    errors: CascadeErrors,
)
    requires
        0 <= i < files.len(),
        i < replies.files@.len(),
        replies.files@[i] == Err::<PolicyFile, CascadeErrors>(errors),
        errors@.len() > 0,
    ensures
        !(compiling_combined(files, replies) matches Decision::Done(Ok(_))),
        !(compiling_systems(files, names, replies) matches Decision::Done(Ok(_))),
        !(compiling_all_systems(files, replies) matches Decision::Done(Ok(_))),
{
    if files.len() <= replies.files@.len() {
        lemma_no_error_of_a_step_is_lost(replies.files@, files.len());
    }
}

/// What a compilation that succeeds gives: a policy for each name in the list and for no other, and
/// for each the CIL of what the policies were reduced to at the last place of that name.
pub proof fn lemma_result_by_answers(
    policies: nat,
    names: Seq<Seq<char>>,
    create_default_system: bool,
    replies: Replies,
)
    requires
        compiling(policies, names, create_default_system, replies) matches Decision::Done(Ok(_)),
    ensures
        ({
            let map = compiling(policies, names, create_default_system, replies)->Done_0->Ok_0;
            &&& forall|name: Seq<char>| #[trigger] map.contains_key(name) <==> names.contains(name)
            &&& forall|i: int|
                0 <= i < names.len() && (forall|j: int|
                    i < j < names.len() ==> names[j] != names[i]) ==> map[#[trigger] names[i]]
                    == cil_policy(replies.reduced@[i]->Ok_0@)
        }),
{
    let map = compiling(policies, names, create_default_system, replies)->Done_0->Ok_0;
    lemma_success_gives_the_named_systems(policies, names, create_default_system, replies);
    assert forall|name: Seq<char>| #[trigger] map.contains_key(name) <==> names.contains(name) by {
        assert(map.dom().contains(name) == names.to_set().contains(name));
    }
    assert forall|i: int|
        0 <= i < names.len() && (forall|j: int|
            i < j < names.len() ==> names[j] != names[i]) implies map[#[trigger] names[i]]
        == cil_policy(replies.reduced@[i]->Ok_0@) by {
        lemma_each_system_has_its_own_policy(
            policies,
            names,
            create_default_system,
            replies,
            i as nat,
        );
    }
}

// ---------------------------------------------------------------------------------------------
// Input files
// ---------------------------------------------------------------------------------------------

/// The policies among the first files, in their order.
pub open spec fn policies_in_order(
    files: Seq<Result<PolicyFile, CascadeErrors>>,
    count: nat,
) -> Seq<PolicyFile> {
    files.take(count as int).filter(|f: Result<PolicyFile, CascadeErrors>| f is Ok).map_values(
        |f: Result<PolicyFile, CascadeErrors>| f->Ok_0,
    )
}

/// No policy of a file is lost or moved, and none is added.
pub proof fn lemma_no_policy_is_lost(files: Seq<Result<PolicyFile, CascadeErrors>>, count: nat)
    requires
        count <= files.len(),
    ensures
        loaded_policies(files, count) == policies_in_order(files, count),
        (forall|i: int| 0 <= i < count ==> #[trigger] files[i] is Ok) ==> {
            &&& loaded_policies(files, count).len() == count
            &&& forall|i: int|
                0 <= i < count ==> #[trigger] loaded_policies(files, count)[i] == files[i]->Ok_0
        },
    decreases count,
{
    reveal(Seq::filter);
    let good = |f: Result<PolicyFile, CascadeErrors>| f is Ok;
    let policy = |f: Result<PolicyFile, CascadeErrors>| f->Ok_0;
    if count > 0 {
        let before = (count - 1) as nat;
        lemma_no_policy_is_lost(files, before);
        let seen = files.take(before as int);
        let next = files.take(count as int);
        assert(next.drop_last() =~= seen);
        assert(next.last() == files[before as int]);
        assert(next.filter(good).map_values(policy) =~= if files[before as int] is Ok {
            seen.filter(good).map_values(policy).push(files[before as int]->Ok_0)
        } else {
            seen.filter(good).map_values(policy)
        });
    } else {
        assert(policies_in_order(files, 0) =~= Seq::empty());
    }
}

/// How the input files are read. Each is asked for by its place and its name, in turn; then all
/// the errors in all of them end the compilation, or there are the policies of all of them.
pub proof fn lemma_reading_by_answers(
    files: Seq<Seq<char>>,
    replies: Replies,
    position: nat,
    file: Seq<char>,
)
    ensures
        asks(reading(files, replies), RequestView::ReadPolicy { position, file }) <==> {
            &&& position == replies.files@.len()
            &&& position < files.len()
            &&& file == files[position as int]
        },
        reading(files, replies) matches Decision::Ask(q) ==> q is ReadPolicy,
        reading(files, replies) is Done <==> files.len() <= replies.files@.len(),
        files.len() <= replies.files@.len() ==> reading(files, replies) == (if all_went_well(
            replies.files@,
            files.len(),
        ) {
            Decision::<Seq<PolicyFile>>::Done(Ok(policies_in_order(replies.files@, files.len())))
        } else {
            Decision::<Seq<PolicyFile>>::Done(Err(errors_in_order(replies.files@, files.len())))
        }),
{
    if files.len() <= replies.files@.len() {
        lemma_no_error_of_a_step_is_lost(replies.files@, files.len());
        lemma_no_policy_is_lost(replies.files@, files.len());
    }
}

/// Whatever is to be compiled, the files are read first, and errors in them are the result. With
/// the policies it goes on: for the names that were given, for those of all systems, or, for the
/// combined policy, for `out` with a default system, whose text is then the result.
pub proof fn lemma_files_come_first(
    files: Seq<Seq<char>>,
    names: Seq<Seq<char>>,
    replies: Replies,
)
    ensures
        match reading(files, replies) {
            Decision::Ask(q) => {
                &&& asks(compiling_combined(files, replies), q)
                &&& asks(compiling_systems(files, names, replies), q)
                &&& asks(compiling_all_systems(files, replies), q)
            },
            Decision::Done(Err(e)) => {
                &&& compiling_combined(files, replies) == Decision::<Seq<char>>::Done(Err(e))
                &&& failed_with(compiling_systems(files, names, replies), e)
                &&& failed_with(compiling_all_systems(files, replies), e)
            },
            Decision::Done(Ok(policies)) => {
                let count = policies.len();
                let out = compiling(count, seq!["out"@], true, replies);
                &&& compiling_systems(files, names, replies) == compiling(
                    count,
                    names,
                    false,
                    replies,
                )
                &&& compiling_all_systems(files, replies) == compiling(
                    count,
                    all_systems(policies),
                    false,
                    replies,
                )
                &&& compiling_combined(files, replies) == match out {
                    Decision::Ask(q) => Decision::<Seq<char>>::Ask(q),
                    Decision::Done(Err(e)) => Decision::<Seq<char>>::Done(Err(e)),
                    Decision::Done(Ok(map)) => Decision::<Seq<char>>::Done(Ok(map["out"@])),
                }
            },
        },
{
    if let Decision::Done(Ok(policies)) = reading(files, replies) {
        let names = seq!["out"@];
        if compiling(policies.len(), names, true, replies) matches Decision::Done(Ok(_)) {
            lemma_success_gives_the_named_systems(policies.len(), names, true, replies);
            assert(names[0] == "out"@);
            assert(names.to_set().contains("out"@));
        }
    }
}

/// One of the policies declares a system of this name.
pub open spec fn declares(policies: Seq<PolicyFile>, name: Seq<char>) -> bool {
    exists|i: int, j: int|
        0 <= i < policies.len() && 0 <= j < policies[i].policy.exprs@.len() && (
        #[trigger] policies[i].policy.exprs@[j] matches Expression::Decl(
            Declaration::System(system),
        ) && system.name@ == name)
}

/// The systems of several policies are those of each, one policy after the other.
pub proof fn lemma_all_systems_grow(policies: Seq<PolicyFile>, policy: PolicyFile)
    ensures
        all_systems(Seq::empty()) == Seq::<Seq<char>>::empty(),
        all_systems(policies.push(policy)) == all_systems(policies) + declared_systems(
            policy.policy.exprs@,
        ),
{
    assert(policies.push(policy).drop_last() =~= policies);
}

/// All systems are those that some policy declares, wherever in it the declaration stands.
pub proof fn lemma_every_declared_system_is_found(policies: Seq<PolicyFile>, name: Seq<char>)
    ensures
        all_systems(policies).contains(name) <==> declares(policies, name),
        all_systems(policies).contains(name) <==> exists|i: int, j: int|
            0 <= i < policies.len() && 0 <= j < policies[i].policy.exprs@.len() && (
            #[trigger] policies[i].policy.exprs@[j] matches Expression::Decl(
                Declaration::System(system),
            ) && system.name@ == name),
    decreases policies.len(),
{
    if policies.len() > 0 {
        let before = policies.drop_last();
        let last = policies.last();
        lemma_every_declared_system_is_found(before, name);
        lemma_declared_systems_are_in_the_policy(last.policy.exprs@, name);
        let head = all_systems(before);
        let tail = declared_systems(last.policy.exprs@);
        let all = all_systems(policies);
        assert(all == head + tail);
        if head.contains(name) {
            assert(all[head.index_of(name)] == name);
        }
        if tail.contains(name) {
            assert(all[head.len() + tail.index_of(name)] == name);
        }
        if all.contains(name) {
            let k = all.index_of(name);
            if k < head.len() {
                assert(head[k] == name);
            } else {
                assert(tail[k - head.len()] == name);
            }
        }
        if declares(before, name) {
            let (i, j) = choose|i: int, j: int|
                0 <= i < before.len() && 0 <= j < before[i].policy.exprs@.len() && (
                #[trigger] before[i].policy.exprs@[j] matches Expression::Decl(
                    Declaration::System(system),
                ) && system.name@ == name);
            assert(policies[i].policy.exprs@[j] == before[i].policy.exprs@[j]);
        }
        if tail.contains(name) {
            let exprs = last.policy.exprs@;
            let j = choose|j: int|
                0 <= j < exprs.len() && ((#[trigger] exprs[j]) matches Expression::Decl(
                    Declaration::System(system),
                ) && system.name@ == name);
            assert(policies[policies.len() - 1].policy.exprs@[j] == exprs[j]);
        }
        if declares(policies, name) {
            let (i, j) = choose|i: int, j: int|
                0 <= i < policies.len() && 0 <= j < policies[i].policy.exprs@.len() && (
                #[trigger] policies[i].policy.exprs@[j] matches Expression::Decl(
                    Declaration::System(system),
                ) && system.name@ == name);
            if i < before.len() {
                assert(before[i].policy.exprs@[j] == policies[i].policy.exprs@[j]);
            } else {
                assert(last.policy.exprs@[j] == policies[i].policy.exprs@[j]);
            }
        }
    }
}

/// Compiling every system gives a policy for each system that the files declare, and for no other.
pub proof fn lemma_every_declared_system_is_compiled(
    files: Seq<Seq<char>>,
    replies: Replies,
    name: Seq<char>,
)
    requires
        compiling_all_systems(files, replies) matches Decision::Done(Ok(_)),
    ensures
        compiling_all_systems(files, replies)->Done_0->Ok_0.contains_key(name) <==> declares(
            policies_in_order(replies.files@, files.len()),
            name,
        ),
{
    lemma_reading_by_answers(files, replies, 0, Seq::empty());
    let policies = policies_in_order(replies.files@, files.len());
    lemma_files_come_first(files, Seq::empty(), replies);
    lemma_every_declared_system_is_found(policies, name);
    lemma_result_by_answers(policies.len(), all_systems(policies), false, replies);
}

/// The policies that requests name by their places: those of all files that could be loaded, in
/// their order, then the one that the annotations gave rise to.
pub proof fn lemma_numbered_policies(replies: Replies)
    ensures
        ({
            let loaded = policies_in_order(replies.files@, replies.files@.len());
            &&& numbered_policies(replies).take(loaded.len() as int) == loaded
            &&& match replies.associated {
                Some(Ok(p)) => {
                    &&& numbered_policies(replies).len() == loaded.len() + 1
                    &&& numbered_policies(replies).last() == p
                },
                _ => numbered_policies(replies).len() == loaded.len(),
            }
        }),
{
    lemma_no_policy_is_lost(replies.files@, replies.files@.len());
    let loaded = policies_in_order(replies.files@, replies.files@.len());
    assert(numbered_policies(replies).take(loaded.len() as int) =~= loaded);
}

} // verus!
