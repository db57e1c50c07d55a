//! The driver: reading the input files, running the stages and writing the CIL.
use vstd::prelude::*;

use crate::ast::{
    declared_systems, declares_system, system_name, Declaration, Expression, Policies, PolicyFile,
};
use crate::dialogue::{
    CompiledSystems, Decision, DefaultSystem, Replies, Request, Step, ValidatedModule,
    ValidatedModuleView,
};
use crate::error::{CascadeErrors, ErrorItemView, InternalError, InvalidSystemError};
use crate::plan::{
    all_systems, compiled, compiling, compiling_all_systems, compiling_combined,
    compiling_systems, declaring, default_system, default_system_due, invalid_system, known_count,
    lemma_known_count_grows, loaded_policies, outcome_errors, reading, reduced_up_to, reducing,
    unknown_errors, validating, writing,
};
use crate::sexp::generate_cil;
use crate::text::{contains_text, copy_texts, join, lemma_push_to_set, texts};

verus! {

/// The texts of a list of string slices.
pub open spec fn str_texts(list: Seq<&str>) -> Seq<Seq<char>> {
    list.map_values(|s: &str| s@)
}

/// A list of string slices holds one text for each slice, at the place of the slice.
pub proof fn lemma_str_texts(list: Seq<&str>)
    ensures
        str_texts(list).len() == list.len(),
        forall|i: int| 0 <= i < list.len() ==> #[trigger] str_texts(list)[i] == list[i]@,
{
}

/// Compiles all systems into a single policy.
///
/// `input_files` are the names of the files with the policy, `replies` what the stages have
/// answered so far. The result is the compiled policy as CIL, or the list of errors.
/// In order to convert the CIL into a usable policy, you must use secilc.
pub fn compile_combined(input_files: Vec<&str>, replies: &Replies) -> (step: Step<String>)
    ensures
        step@ == compiling_combined(str_texts(input_files@), *replies),
        step matches Step::Ask(request) ==> request.well_formed(),
{
    let policies = match get_policies(&input_files, replies) {
        Step::Ask(request) => return Step::Ask(request),
        Step::Done(Err(errors)) => return Step::Done(Err(errors)),
        Step::Done(Ok(policies)) => policies,
    };
    let mut names: Vec<String> = Vec::new();
    names.push("out".to_string());
    assert(texts(names@) =~= seq!["out"@]);
    let errors = CascadeErrors::new();
    match compile_system_policies_internal(policies, names, true, replies) {
        Step::Ask(request) => Step::Ask(request),
        Step::Done(Err(errors)) => Step::Done(Err(errors)),
        Step::Done(Ok(res)) => match res.get("out") {
            Some(s) => Step::Done(errors.into_result(s.clone())),
            None => Step::Done(Err(CascadeErrors::from(InternalError::new()))),
        },
    }
}

/// Compiles a policy for each of the named systems.
///
/// `input_files` are the names of the files with the policy, `system_names` those of the systems
/// to build, and `replies` is what the stages have answered so far. The result is the compiled
/// policy of each system as CIL, or the list of errors.
/// In order to convert the CIL into a usable policy, you must use secilc.
pub fn compile_system_policies(
    input_files: Vec<&str>,
    system_names: Vec<String>,
    replies: &Replies,
) -> (step: Step<CompiledSystems>)
    ensures
        step@ == compiling_systems(str_texts(input_files@), texts(system_names@), *replies),
        step matches Step::Ask(request) ==> request.well_formed(),
{
    match get_policies(&input_files, replies) {
        Step::Ask(request) => Step::Ask(request),
        Step::Done(Err(errors)) => Step::Done(Err(errors)),
        Step::Done(Ok(policies)) => {
            compile_system_policies_internal(policies, system_names, false, replies)
        },
    }
}

/// Compiles a policy for each system that the input files declare.
///
/// `input_files` are the names of the files with the policy, `replies` what the stages have
/// answered so far. The result is the compiled policy of each system as CIL, or the list of
/// errors.
/// In order to convert the CIL into a usable policy, you must use secilc.
pub fn compile_system_policies_all(input_files: Vec<&str>, replies: &Replies) -> (step: Step<
    CompiledSystems,
>)
    ensures
        step@ == compiling_all_systems(str_texts(input_files@), *replies),
        step matches Step::Ask(request) ==> request.well_formed(),
{
    let policies = match get_policies(&input_files, replies) {
        Step::Ask(request) => return Step::Ask(request),
        Step::Done(Err(errors)) => return Step::Done(Err(errors)),
        Step::Done(Ok(policies)) => policies,
    };
    let mut system_names: Vec<String> = Vec::new();
    let count = policies.len();
    for i in 0..count
        invariant
            count == policies@.len(),
            texts(system_names@) == all_systems(policies@.take(i as int)),
    {
        let p = policies.get(i);
        collect_system_names(p, &mut system_names);
        proof {
            assert(policies@.take(i + 1).drop_last() =~= policies@.take(i as int));
        }
    }
    assert(policies@.take(policies@.len() as int) =~= policies@);
    compile_system_policies_internal(policies, system_names, false, replies)
}

/// Adds the names of the systems that a policy declares to a list of names.
fn collect_system_names(p: &PolicyFile, system_names: &mut Vec<String>)
    ensures
        texts(final(system_names)@) == texts(old(system_names)@) + declared_systems(
            p.policy.exprs@,
        ),
{
    let exprs = &p.policy.exprs;
    let ghost before = texts(system_names@);
    assert(before =~= before + declared_systems(exprs@.take(0)));
    for i in 0..exprs.len()
        invariant
            *exprs == p.policy.exprs,
            texts(system_names@) == before + declared_systems(exprs@.take(i as int)),
    {
        let ghost names = texts(system_names@);
        let ghost seen = exprs@.take(i as int);
        proof {
            let next = exprs@.take(i + 1);
            reveal(Seq::filter);
            assert(next.drop_last() =~= seen);
            assert(next.last() == exprs@[i as int]);
            assert(declares_system(exprs@[i as int]) ==> declared_systems(next)
                =~= declared_systems(seen).push(system_name(exprs@[i as int])));
        }
        if let Expression::Decl(Declaration::System(s)) = &exprs[i] {
            system_names.push(s.name.clone());
            assert(texts(system_names@) =~= names.push(s.name@));
        }
    }
    assert(exprs@.take(exprs@.len() as int) =~= exprs@);
}

/// The policies of the input files, or the errors in all of them.
pub fn get_policies<'a>(input_files: &Vec<&str>, replies: &'a Replies) -> (step: Step<Policies<'a>>)
    ensures
        step@ == reading(str_texts(input_files@), *replies),
        step matches Step::Ask(request) ==> request.well_formed(),
{
    let mut errors = CascadeErrors::new();
    let mut policies = Policies::new();
    let answered = replies.files.len();
    if answered < input_files.len() {
        let file = input_files[answered].to_string();
        return Step::Ask(Request::ReadPolicy { position: answered, file });
    }
    for i in 0..input_files.len()
        invariant
            input_files@.len() <= replies.files@.len(),
            errors@ == outcome_errors(replies.files@, i as nat),
            policies@ == loaded_policies(replies.files@, i as nat),
    {
        match &replies.files[i] {
            Ok(p) => policies.push(p),
            Err(e) => errors.append(e.clone()),
        }
    }
    Step::Done(errors.into_result(policies))
}

/// Adds the errors in the outcomes of a stage for `count` policies to `errors`. If the outcome for
/// a policy is not there yet, the place of the first such policy is returned.
fn collect_outcomes(
    outcomes: &Vec<Result<(), CascadeErrors>>,
    count: usize,
    errors: &mut CascadeErrors,
) -> (missing: Option<usize>)
    ensures
        match missing {
            Some(i) => outcomes@.len() < count && i == outcomes@.len() && final(errors)@ == old(
                errors,
            )@,
            None => outcomes@.len() >= count && final(errors)@ == old(errors)@ + outcome_errors(
                outcomes@,
                count as nat,
            ),
        },
{
    if outcomes.len() < count {
        return Some(outcomes.len());
    }
    let ghost before = errors@;
    assert(before =~= before + outcome_errors(outcomes@, 0));
    for i in 0..count
        invariant
            count <= outcomes@.len(),
            errors@ == before + outcome_errors(outcomes@, i as nat),
    {
        let ghost so_far = outcome_errors(outcomes@, i as nat);
        match &outcomes[i] {
            Ok(()) => {},
            Err(e) => {
                errors.append(e.clone());
                assert(before + so_far + e@ =~= before + (so_far + e@));
            },
        }
    }
    None
}

/// A step towards a list of policies, as a step towards how many there are.
spec fn count_step(step: Step<Policies>) -> Decision<nat> {
    match step@ {
        Decision::Ask(request) => Decision::Ask(request),
        Decision::Done(Err(errors)) => Decision::Done(Err(errors)),
        Decision::Done(Ok(policies)) => Decision::Done(Ok(policies.len())),
    }
}

/// A step towards a list of names, as a step towards their texts.
spec fn names_step(step: Step<Vec<String>>) -> Decision<Seq<Seq<char>>> {
    match step@ {
        Decision::Ask(request) => Decision::Ask(request),
        Decision::Done(Err(errors)) => Decision::Done(Err(errors)),
        Decision::Done(Ok(names)) => Decision::Done(Ok(texts(names))),
    }
}

/// Collects the declarations of all policies and applies the annotations.
fn declare<'a>(policies: Policies<'a>, replies: &'a Replies) -> (step: Step<Policies<'a>>)
    ensures
        count_step(step) == declaring(policies@.len(), *replies),
        step matches Step::Ask(request) ==> request.well_formed(),
        step matches Step::Done(Ok(all)) ==> all@ == (match (
            replies.associated,
            replies.associated_type_map,
        ) {
            (Some(Ok(p)), Some(Ok(_))) => policies@.push(p),
            _ => policies@,
        }),
{
    let mut policies = policies;
    let mut errors = CascadeErrors::new();
    let count = policies.len();

    // Generic initialization
    match &replies.built_in_types {
        None => return Step::Ask(Request::BuiltInTypes),
        Some(Err(e)) => return Step::Done(Err(e.clone())),
        Some(Ok(())) => {},
    }

    // Collect all type declarations
    if let Some(i) = collect_outcomes(&replies.type_maps, count, &mut errors) {
        return Step::Ask(Request::ExtendTypeMap(i));
    }
    // Stops if something went wrong for this major step.
    errors = match errors.into_result_self() {
        Ok(errors) => errors,
        Err(errors) => return Step::Done(Err(errors)),
    };

    if let Some(i) = collect_outcomes(&replies.global_bindings, count, &mut errors) {
        return Step::Ask(Request::GlobalBindings(i));
    }
    errors = match errors.into_result_self() {
        Ok(errors) => errors,
        Err(errors) => return Step::Done(Err(errors)),
    };

    // Generate type aliases
    if !replies.type_aliases {
        return Step::Ask(Request::TypeAliases);
    }
    if let Some(i) = collect_outcomes(&replies.extends, count, &mut errors) {
        return Step::Ask(Request::VerifyExtends(i));
    }
    errors = match errors.into_result_self() {
        Ok(errors) => errors,
        Err(errors) => return Step::Done(Err(errors)),
    };

    // Collect all function declarations, then apply the annotations
    if let Some(i) = collect_outcomes(&replies.func_maps, count, &mut errors) {
        return Step::Ask(Request::BuildFuncMap(i));
    }
    match &replies.associated {
        None => return Step::Ask(Request::AssociateAnnotations),
        Some(Ok(pf)) => match &replies.associated_type_map {
            None => return Step::Ask(Request::ExtendAssociated),
            Some(Ok(())) => policies.push(pf),
            Some(Err(e)) => errors.append(e.clone()),
        },
        Some(Err(e)) => errors.append(e.clone()),
    }
    // Stops if something went wrong for this major step.
    Step::Done(errors.into_result(policies))
}

/// The module of the default system with every type in it.
fn fill_default_module(types: &Vec<String>) -> (module: ValidatedModule)
    ensures
        module.well_formed(),
        module@ == default_system(Seq::empty(), texts(types@)).module,
        module.name@ == "module"@,
        forall|t: Seq<char>| #[trigger]
            texts(module.types@).contains(t) <==> texts(types@).contains(t),
{
    let mut module = ValidatedModule::new("module".to_string());
    let ghost all = texts(types@);
    assert(all.take(0).to_set() =~= Set::empty());
    for i in 0..types.len()
        invariant
            all == texts(types@),
            module.well_formed(),
            module@ == (ValidatedModuleView {
                name: "module"@,
                types: all.take(i as int).to_set(),
            }),
    {
        module.insert_type(&types[i]);
        proof {
            let seen = all.take(i as int);
            let next = all.take(i + 1);
            assert(next =~= seen.push(all[i as int]));
            lemma_push_to_set(seen, all[i as int]);
        }
    }
    assert(all.take(types@.len() as int) =~= all);
    assert forall|t: Seq<char>| #[trigger]
        texts(module.types@).contains(t) <==> texts(types@).contains(t) by {
        assert(module@.types.contains(t) == all.to_set().contains(t));
    }
    module
}

/// Validates the modules and the systems of `count` policies and adds the default system, if one
/// is to be made. The result is the names of all systems.
fn validate(
    count: usize,
    system_names: &Vec<String>,
    create_default_system: bool,
    replies: &Replies,
) -> (step: Step<Vec<String>>)
    requires
        create_default_system && default_system_due(*replies) ==> system_names@.len() > 0,
    ensures
        names_step(step) == validating(
            count as nat,
            texts(system_names@),
            create_default_system,
            *replies,
        ),
        step matches Step::Ask(request) ==> request.well_formed(),
{
    // Validate modules
    match &replies.modules {
        None => return Step::Ask(Request::ValidateModules(count)),
        Some(Err(e)) => return Step::Done(Err(e.clone())),
        Some(Ok(())) => {},
    }

    // Generate module aliases
    if !replies.module_aliases {
        return Step::Ask(Request::ModuleAliases);
    }

    // Validate systems
    let systems = match &replies.systems {
        None => return Step::Ask(Request::ValidateSystems(count)),
        Some(Err(e)) => return Step::Done(Err(e.clone())),
        Some(Ok(systems)) => systems,
    };
    if !create_default_system {
        return Step::Done(Ok(copy_texts(systems)));
    }

    // Create a default module and default system
    match &replies.default_module {
        None => {
            let module = ValidatedModule::new("module".to_string());
            return Step::Ask(Request::DefaultModule(module));
        },
        Some(Err(_)) => return Step::Done(Err(CascadeErrors::from(InternalError::new()))),
        Some(Ok(())) => {},
    }
    let types = match &replies.type_names {
        None => return Step::Ask(Request::TypeNames),
        Some(types) => types,
    };
    match &replies.default_system {
        None => {
            let system = DefaultSystem {
                name: system_names[0].clone(),
                module: fill_default_module(types),
                handle_unknown_perms: "allow".to_string(),
            };
            Step::Ask(Request::InsertSystem(system))
        },
        Some(Err(e)) => Step::Done(Err(e.clone())),
        Some(Ok(systems)) => Step::Done(Ok(copy_texts(systems))),
    }
}

/// What is said of a name that no system has.
fn invalid_system_message(name: &String, systems: &Vec<String>) -> (message: String)
    ensures
        invalid_system(name@, texts(systems@)) == (ErrorItemView::InvalidSystem {
            message: message@,
        }),
{
    let mut message = "System ".to_string();
    message.append(name.as_str());
    message.append(" does not exist.\nThe valid systems are ");
    message.append(join(systems, ", ").as_str());
    message
}

/// Writes the CIL of each system in `system_names`, for `count` policies and the systems that are
/// named in `systems`.
fn write_systems(
    count: usize,
    system_names: &Vec<String>,
    systems: &Vec<String>,
    replies: &Replies,
) -> (step: Step<CompiledSystems>)
    ensures
        step@ == writing(count as nat, texts(system_names@), texts(systems@), *replies),
        step matches Step::Ask(request) ==> request.well_formed(),
{
    let ghost names = texts(system_names@);
    let ghost known = texts(systems@);
    let mut errors = CascadeErrors::new();
    let mut answer: usize = 0;
    for i in 0..system_names.len()
        invariant
            names == texts(system_names@),
            known == texts(systems@),
            answer <= i,
            answer == known_count(names, known, i as nat),
            errors@ == unknown_errors(names, known, i as nat),
            reducing(count as nat, names, known, replies.reduced@, 0) == reducing(
                count as nat,
                names,
                known,
                replies.reduced@,
                i as nat,
            ),
            reduced_up_to(names, known, replies.reduced@, i as nat),
    {
        if contains_text(systems, &system_names[i]) {
            if answer >= replies.reduced.len() {
                return Step::Ask(
                    Request::ReducedInfos {
                        position: i,
                        system: system_names[i].clone(),
                        policies: count,
                    },
                );
            }
            match &replies.reduced[answer] {
                Ok(_) => {},
                Err(e) => return Step::Done(Err(e.clone())),
            }
            answer = answer + 1;
        } else {
            let message = invalid_system_message(&system_names[i], systems);
            errors.append(CascadeErrors::from(InvalidSystemError::new(message)));
        }
    }
    let errors = match errors.into_result_self() {
        Ok(errors) => errors,
        Err(errors) => return Step::Done(Err(errors)),
    };

    let mut res = CompiledSystems::new();
    answer = 0;
    for i in 0..system_names.len()
        invariant
            names == texts(system_names@),
            known == texts(systems@),
            answer <= i,
            answer == known_count(names, known, i as nat),
            reduced_up_to(names, known, replies.reduced@, names.len()),
            res@ == compiled(names, known, replies.reduced@, i as nat),
    {
        if contains_text(systems, &system_names[i]) {
            proof {
                lemma_known_count_grows(names, known, (i + 1) as nat, names.len());
            }
            if let Ok(tree) = &replies.reduced[answer] {
                res = res.with(system_names[i].clone(), generate_cil(tree));
            }
            answer = answer + 1;
        }
    }
    Step::Done(errors.into_result(res))
}

/// Compiles the policies into one CIL policy for each system in `system_names`. The default system,
/// if one is to be made, takes the first of these names.
pub fn compile_system_policies_internal<'a>(
    policies: Policies<'a>,
    system_names: Vec<String>,
    create_default_system: bool,
    replies: &'a Replies,
) -> (step: Step<CompiledSystems>)
    requires
        create_default_system && (declaring(policies@.len(), *replies) matches Decision::Done(
            Ok(_),
        )) && default_system_due(*replies) ==> system_names@.len() > 0,
    ensures
        step@ == compiling(
            policies@.len(),
            texts(system_names@),
            create_default_system,
            *replies,
        ),
        step matches Step::Ask(request) ==> request.well_formed(),
{
    let policies = match declare(policies, replies) {
        Step::Ask(request) => return Step::Ask(request),
        Step::Done(Err(errors)) => return Step::Done(Err(errors)),
        Step::Done(Ok(policies)) => policies,
    };
    let systems = match validate(policies.len(), &system_names, create_default_system, replies) {
        Step::Ask(request) => return Step::Ask(request),
        Step::Done(Err(errors)) => return Step::Done(Err(errors)),
        Step::Done(Ok(systems)) => systems,
    };
    write_systems(policies.len(), &system_names, &systems, replies)
}

} // verus!
