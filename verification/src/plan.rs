//! What a compilation does next, as a function of what has been answered so far.
use vstd::prelude::*;

use crate::ast::{declared_systems, PolicyFile};
use crate::dialogue::{Decision, DefaultSystemView, Replies, RequestView, ValidatedModuleView};
use crate::error::{CascadeErrors, ErrorItemView};
use crate::sexp::{cil_policy, Sexp};
use crate::text::{joined, texts};

verus! {

/// The errors in the first `count` outcomes, in their order.
pub open spec fn outcome_errors<T>(outcomes: Seq<Result<T, CascadeErrors>>, count: nat) -> Seq<
    ErrorItemView,
>
    decreases count,
{
    if count == 0 {
        Seq::empty()
    } else {
        let before = outcome_errors(outcomes, (count - 1) as nat);
        match outcomes[count - 1] {
            Ok(_) => before,
            Err(e) => before + e@,
        }
    }
}

/// The policies among the first `count` files, in their order.
pub open spec fn loaded_policies(
    files: Seq<Result<PolicyFile, CascadeErrors>>,
    count: nat,
) -> Seq<PolicyFile>
    decreases count,
{
    if count == 0 {
        Seq::empty()
    } else {
        let before = loaded_policies(files, (count - 1) as nat);
        match files[count - 1] {
            Ok(p) => before.push(p),
            Err(_) => before,
        }
    }
}

/// The policies that a request can name by their places: those of the files, then the one that the
/// annotations gave rise to.
pub open spec fn numbered_policies(replies: Replies) -> Seq<PolicyFile> {
    let loaded = loaded_policies(replies.files@, replies.files@.len());
    match replies.associated {
        Some(Ok(p)) => loaded.push(p),
        _ => loaded,
    }
}

/// The names of the systems that the policies declare, in the order of their declarations.
pub open spec fn all_systems(policies: Seq<PolicyFile>) -> Seq<Seq<char>>
    decreases policies.len(),
{
    if policies.len() == 0 {
        Seq::empty()
    } else {
        all_systems(policies.drop_last()) + declared_systems(policies.last().policy.exprs@)
    }
}

/// Reading the input files: every file is asked for, in order. The errors in all of them end the
/// compilation; without an error it goes on with the policies.
pub open spec fn reading(files: Seq<Seq<char>>, replies: Replies) -> Decision<Seq<PolicyFile>> {
    let answered = replies.files@.len();
    if answered < files.len() {
        Decision::Ask(RequestView::ReadPolicy { position: answered, file: files[answered as int] })
    } else {
        let errors = outcome_errors(replies.files@, files.len());
        if errors.len() > 0 {
            Decision::Done(Err(errors))
        } else {
            Decision::Done(Ok(loaded_policies(replies.files@, files.len())))
        }
    }
}

/// The errors of the annotations: those met when they were applied, or when the types that came
/// out of them were added.
pub open spec fn association_errors(replies: Replies) -> Seq<ErrorItemView> {
    match (replies.associated, replies.associated_type_map) {
        (Some(Err(e)), _) => e@,
        (Some(Ok(_)), Some(Err(e))) => e@,
        _ => Seq::empty(),
    }
}

/// The declarations of so many policies. Each step asks for every policy in turn, and ends the
/// compilation with all its errors if it met any. In the end the policy that the annotations gave
/// rise to is one policy more; the result is how many there are.
pub open spec fn declaring(policies: nat, replies: Replies) -> Decision<nat> {
    if replies.built_in_types is None {
        Decision::Ask(RequestView::BuiltInTypes)
    } else if let Some(Err(e)) = replies.built_in_types {
        Decision::Done(Err(e@))
    } else if replies.type_maps@.len() < policies {
        Decision::Ask(RequestView::ExtendTypeMap(replies.type_maps@.len()))
    } else if outcome_errors(replies.type_maps@, policies).len() > 0 {
        Decision::Done(Err(outcome_errors(replies.type_maps@, policies)))
    } else if replies.global_bindings@.len() < policies {
        Decision::Ask(RequestView::GlobalBindings(replies.global_bindings@.len()))
    } else if outcome_errors(replies.global_bindings@, policies).len() > 0 {
        Decision::Done(Err(outcome_errors(replies.global_bindings@, policies)))
    } else if !replies.type_aliases {
        Decision::Ask(RequestView::TypeAliases)
    } else if replies.extends@.len() < policies {
        Decision::Ask(RequestView::VerifyExtends(replies.extends@.len()))
    } else if outcome_errors(replies.extends@, policies).len() > 0 {
        Decision::Done(Err(outcome_errors(replies.extends@, policies)))
    } else if replies.func_maps@.len() < policies {
        Decision::Ask(RequestView::BuildFuncMap(replies.func_maps@.len()))
    } else if replies.associated is None {
        Decision::Ask(RequestView::AssociateAnnotations)
    } else if replies.associated->0 is Ok && replies.associated_type_map is None {
        Decision::Ask(RequestView::ExtendAssociated)
    } else {
        let errors = outcome_errors(replies.func_maps@, policies) + association_errors(replies);
        if errors.len() > 0 {
            Decision::Done(Err(errors))
        } else if replies.associated->0 is Ok && replies.associated_type_map->0 is Ok {
            Decision::Done(Ok(policies + 1))
        } else {
            Decision::Done(Ok(policies))
        }
    }
}

/// The module of the default system, before there are types in it.
pub open spec fn empty_default_module() -> ValidatedModuleView {
    ValidatedModuleView { name: "module"@, types: Set::empty() }
}

/// The default system: one module with every type in it, and unknown permissions allowed.
pub open spec fn default_system(name: Seq<char>, types: Seq<Seq<char>>) -> DefaultSystemView {
    DefaultSystemView {
        name,
        module: ValidatedModuleView { name: "module"@, types: types.to_set() },
        handle_unknown_perms: "allow"@,
    }
}

/// The validation has come to where the default system is made, under the first of the names.
pub open spec fn default_system_due(replies: Replies) -> bool {
    &&& replies.modules matches Some(Ok(_))
    &&& replies.module_aliases
    &&& replies.systems matches Some(Ok(_))
    &&& replies.default_module matches Some(Ok(_))
    &&& replies.type_names is Some
}

/// The validation of the modules and the systems of so many policies. The default system, if one
/// is to be made, is added to them under the first of the names. The result is the names of the
/// systems.
pub open spec fn validating(
    policies: nat,
    names: Seq<Seq<char>>,
    create_default_system: bool,
    replies: Replies,
) -> Decision<Seq<Seq<char>>> {
    match replies.modules {
        None => Decision::Ask(RequestView::ValidateModules(policies)),
        Some(Err(e)) => Decision::Done(Err(e@)),
        Some(Ok(_)) => if !replies.module_aliases {
            Decision::Ask(RequestView::ModuleAliases)
        } else {
            match replies.systems {
                None => Decision::Ask(RequestView::ValidateSystems(policies)),
                Some(Err(e)) => Decision::Done(Err(e@)),
                Some(Ok(systems)) => if create_default_system {
                    adding_default_system(names[0], replies)
                } else {
                    Decision::Done(Ok(texts(systems@)))
                },
            }
        },
    }
}

/// Making the default system and adding it to the others. The result is the names of the systems
/// with it.
pub open spec fn adding_default_system(name: Seq<char>, replies: Replies) -> Decision<
    Seq<Seq<char>>,
> {
    match replies.default_module {
        None => Decision::Ask(RequestView::DefaultModule(empty_default_module())),
        Some(Err(_)) => Decision::Done(Err(seq![ErrorItemView::Internal])),
        Some(Ok(_)) => match replies.type_names {
            None => Decision::Ask(RequestView::TypeNames),
            Some(types) => match replies.default_system {
                None => Decision::Ask(
                    RequestView::InsertSystem(default_system(name, texts(types@))),
                ),
                Some(Err(e)) => Decision::Done(Err(e@)),
                Some(Ok(systems)) => Decision::Done(Ok(texts(systems@))),
            },
        },
    }
}

/// How many of the first `count` names are names of systems.
pub open spec fn known_count(
    names: Seq<Seq<char>>,
    systems: Seq<Seq<char>>,
    count: nat,
) -> nat
    decreases count,
{
    if count == 0 {
        0
    } else if systems.contains(names[count - 1]) {
        known_count(names, systems, (count - 1) as nat) + 1
    } else {
        known_count(names, systems, (count - 1) as nat)
    }
}

/// What is said of a name that no system has.
pub open spec fn invalid_system(name: Seq<char>, systems: Seq<Seq<char>>) -> ErrorItemView {
    ErrorItemView::InvalidSystem {
        message: "System "@ + name + " does not exist.\nThe valid systems are "@ + joined(
            systems,
            ", "@,
        ),
    }
}

/// The errors for those of the first `count` names that no system has, in their order.
pub open spec fn unknown_errors(
    names: Seq<Seq<char>>,
    systems: Seq<Seq<char>>,
    count: nat,
) -> Seq<ErrorItemView>
    decreases count,
{
    if count == 0 {
        Seq::empty()
    } else {
        let before = unknown_errors(names, systems, (count - 1) as nat);
        if systems.contains(names[count - 1]) {
            before
        } else {
            before.push(invalid_system(names[count - 1], systems))
        }
    }
}

/// Reducing the policies for each name from `from` on that a system has. The answers stand in the
/// order of those names, and the first error ends the compilation.
pub open spec fn reducing(
    policies: nat,
    names: Seq<Seq<char>>,
    systems: Seq<Seq<char>>,
    reduced: Seq<Result<Vec<Sexp>, CascadeErrors>>,
    from: nat,
) -> Decision<()>
    decreases names.len() - from,
{
    let answer = known_count(names, systems, from);
    if from >= names.len() {
        Decision::Done(Ok(()))
    } else if !systems.contains(names[from as int]) {
        reducing(policies, names, systems, reduced, from + 1)
    } else if answer >= reduced.len() {
        Decision::Ask(
            RequestView::ReducedInfos { position: from, system: names[from as int], policies },
        )
    } else {
        match reduced[answer as int] {
            Err(e) => Decision::Done(Err(e@)),
            Ok(_) => reducing(policies, names, systems, reduced, from + 1),
        }
    }
}

/// The CIL text of each of the first `count` names that a system has. A name that stands in the
/// list twice has the text of its last place.
pub open spec fn compiled(
    names: Seq<Seq<char>>,
    systems: Seq<Seq<char>>,
    reduced: Seq<Result<Vec<Sexp>, CascadeErrors>>,
    count: nat,
) -> Map<Seq<char>, Seq<char>>
    decreases count,
{
    if count == 0 {
        Map::empty()
    } else {
        let before = compiled(names, systems, reduced, (count - 1) as nat);
        let answer = known_count(names, systems, (count - 1) as nat);
        if systems.contains(names[count - 1]) {
            before.insert(names[count - 1], cil_policy(reduced[answer as int]->Ok_0@))
        } else {
            before
        }
    }
}

/// For each of the first `count` names that a system has, the policies have been reduced without
/// an error.
pub open spec fn reduced_up_to(
    names: Seq<Seq<char>>,
    systems: Seq<Seq<char>>,
    reduced: Seq<Result<Vec<Sexp>, CascadeErrors>>,
    count: nat,
) -> bool {
    &&& known_count(names, systems, count) <= reduced.len()
    &&& forall|k: int| 0 <= k < known_count(names, systems, count) ==> #[trigger] reduced[k] is Ok
}

/// More names hold no fewer names of systems.
pub proof fn lemma_known_count_grows(
    names: Seq<Seq<char>>,
    systems: Seq<Seq<char>>,
    fewer: nat,
    more: nat,
)
    requires
        fewer <= more,
    ensures
        known_count(names, systems, fewer) <= known_count(names, systems, more),
    decreases more,
{
    if fewer < more {
        lemma_known_count_grows(names, systems, fewer, (more - 1) as nat);
    }
}

/// If reducing the policies ended well, there is an answer without an error for every name from
/// `from` on that a system has.
pub proof fn lemma_reducing_done(
    policies: nat,
    names: Seq<Seq<char>>,
    systems: Seq<Seq<char>>,
    reduced: Seq<Result<Vec<Sexp>, CascadeErrors>>,
    from: nat,
)
    requires
        from <= names.len(),
        reducing(policies, names, systems, reduced, from) matches Decision::Done(Ok(_)),
        reduced_up_to(names, systems, reduced, from),
    ensures
        reduced_up_to(names, systems, reduced, names.len()),
    decreases names.len() - from,
{
    if from < names.len() {
        lemma_reducing_done(policies, names, systems, reduced, from + 1);
    }
}

/// Writing the CIL of each system in the list of names. Names that no system has are errors, all
/// of which are reported.
pub open spec fn writing(
    policies: nat,
    names: Seq<Seq<char>>,
    systems: Seq<Seq<char>>,
    replies: Replies,
) -> Decision<Map<Seq<char>, Seq<char>>> {
    match reducing(policies, names, systems, replies.reduced@, 0) {
        Decision::Ask(request) => Decision::Ask(request),
        Decision::Done(Err(errors)) => Decision::Done(Err(errors)),
        Decision::Done(Ok(_)) => {
            let errors = unknown_errors(names, systems, names.len());
            if errors.len() > 0 {
                Decision::Done(Err(errors))
            } else {
                Decision::Done(Ok(compiled(names, systems, replies.reduced@, names.len())))
            }
        },
    }
}

/// Compiling so many policies into one CIL policy for each of the named systems.
pub open spec fn compiling(
    policies: nat,
    names: Seq<Seq<char>>,
    create_default_system: bool,
    replies: Replies,
) -> Decision<Map<Seq<char>, Seq<char>>> {
    match declaring(policies, replies) {
        Decision::Ask(request) => Decision::Ask(request),
        Decision::Done(Err(errors)) => Decision::Done(Err(errors)),
        Decision::Done(Ok(count)) => match validating(
            count,
            names,
            create_default_system,
            replies,
        ) {
            Decision::Ask(request) => Decision::Ask(request),
            Decision::Done(Err(errors)) => Decision::Done(Err(errors)),
            Decision::Done(Ok(systems)) => writing(count, names, systems, replies),
        },
    }
}

/// Compiling the named systems of the input files.
pub open spec fn compiling_systems(
    files: Seq<Seq<char>>,
    names: Seq<Seq<char>>,
    replies: Replies,
) -> Decision<Map<Seq<char>, Seq<char>>> {
    match reading(files, replies) {
        Decision::Ask(request) => Decision::Ask(request),
        Decision::Done(Err(errors)) => Decision::Done(Err(errors)),
        Decision::Done(Ok(policies)) => compiling(policies.len(), names, false, replies),
    }
}

/// Compiling every system that the input files declare.
pub open spec fn compiling_all_systems(files: Seq<Seq<char>>, replies: Replies) -> Decision<
    Map<Seq<char>, Seq<char>>,
> {
    match reading(files, replies) {
        Decision::Ask(request) => Decision::Ask(request),
        Decision::Done(Err(errors)) => Decision::Done(Err(errors)),
        Decision::Done(Ok(policies)) => {
            compiling(policies.len(), all_systems(policies), false, replies)
        },
    }
}

/// Compiling everything that the input files declare into one policy.
pub open spec fn compiling_combined(files: Seq<Seq<char>>, replies: Replies) -> Decision<
    Seq<char>,
> {
    match reading(files, replies) {
        Decision::Ask(request) => Decision::Ask(request),
        Decision::Done(Err(errors)) => Decision::Done(Err(errors)),
        Decision::Done(Ok(policies)) => match compiling(
            policies.len(),
            seq!["out"@],
            true,
            replies,
        ) {
            Decision::Ask(request) => Decision::Ask(request),
            Decision::Done(Err(errors)) => Decision::Done(Err(errors)),
            Decision::Done(Ok(map)) => if map.contains_key("out"@) {
                Decision::Done(Ok(map["out"@]))
            } else {
                Decision::Done(Err(seq![ErrorItemView::Internal]))
            },
        },
    }
}

} // verus!
