//! How a compilation moves from one request to the next, and that it ends.
use vstd::prelude::*;

use crate::ast::PolicyFile;
use crate::dialogue::{recorded, Decision, Replies, Reply, RequestView};
use crate::error::CascadeErrors;
use crate::laws::answered_with;
use crate::load::{loaded, FileContent};
use crate::plan::{
    all_systems, association_errors, compiled, compiling, compiling_all_systems,
    compiling_combined, compiling_systems, declaring, default_system, known_count,
    lemma_known_count_grows, lemma_reducing_done, loaded_policies, numbered_policies,
    outcome_errors, reading, reducing, validating,
};
use crate::sexp::Sexp;
use crate::text::texts;

verus! {

/// The step of the compilation that a request belongs to. Steps are taken in this order.
pub open spec fn step_of(request: RequestView) -> nat {
    match request {
        RequestView::ReadPolicy { .. } => 0,
        RequestView::BuiltInTypes => 1,
        RequestView::ExtendTypeMap(_) => 2,
        RequestView::GlobalBindings(_) => 3,
        RequestView::TypeAliases => 4,
        RequestView::VerifyExtends(_) => 5,
        RequestView::BuildFuncMap(_) => 6,
        RequestView::AssociateAnnotations => 7,
        RequestView::ExtendAssociated => 8,
        RequestView::ValidateModules(_) => 9,
        RequestView::ModuleAliases => 10,
        RequestView::ValidateSystems(_) => 11,
        RequestView::DefaultModule(_) => 12,
        RequestView::TypeNames => 13,
        RequestView::InsertSystem(_) => 14,
        RequestView::ReducedInfos { .. } => 15,
    }
}

/// The place of a request within its step: that of the file, the policy or the name that it is
/// about.
pub open spec fn place_of(request: RequestView) -> nat {
    match request {
        RequestView::ReadPolicy { position, .. } => position,
        RequestView::ExtendTypeMap(i) => i,
        RequestView::GlobalBindings(i) => i,
        RequestView::VerifyExtends(i) => i,
        RequestView::BuildFuncMap(i) => i,
        RequestView::ReducedInfos { position, .. } => position,
        _ => 0,
    }
}

/// Whether `second` comes behind `first`: in a later step, or in the same step at a later place.
pub open spec fn comes_behind(first: RequestView, second: RequestView) -> bool {
    ||| step_of(first) < step_of(second)
    ||| step_of(first) == step_of(second) && place_of(first) < place_of(second)
}

/// Whether a reply answers a request.
pub open spec fn answers(request: RequestView, reply: Reply) -> bool {
    match request {
        RequestView::ReadPolicy { file, .. } => {
            reply matches Reply::ReadPolicy { file: name, .. } && name@ == file
        },
        RequestView::BuiltInTypes => reply is BuiltInTypes,
        RequestView::ExtendTypeMap(_) => reply is ExtendTypeMap,
        RequestView::GlobalBindings(_) => reply is GlobalBindings,
        RequestView::TypeAliases => reply is TypeAliases,
        RequestView::VerifyExtends(_) => reply is VerifyExtends,
        RequestView::BuildFuncMap(_) => reply is BuildFuncMap,
        RequestView::AssociateAnnotations => reply is AssociateAnnotations,
        RequestView::ExtendAssociated => reply is ExtendAssociated,
        RequestView::ValidateModules(_) => reply is ValidateModules,
        RequestView::ModuleAliases => reply is ModuleAliases,
        RequestView::ValidateSystems(_) => reply is ValidateSystems,
        RequestView::DefaultModule(_) => reply is DefaultModule,
        RequestView::TypeNames => reply is TypeNames,
        RequestView::InsertSystem(_) => reply is InsertSystem,
        RequestView::ReducedInfos { .. } => reply is ReducedInfos,
    }
}

/// Whether `after` holds every answer that `before` holds, and perhaps more.
pub open spec fn holds_more(before: Replies, after: Replies) -> bool {
    &&& before.files@.is_prefix_of(after.files@)
    &&& before.built_in_types is Some ==> after.built_in_types == before.built_in_types
    &&& before.type_maps@.is_prefix_of(after.type_maps@)
    &&& before.global_bindings@.is_prefix_of(after.global_bindings@)
    &&& before.type_aliases ==> after.type_aliases
    &&& before.extends@.is_prefix_of(after.extends@)
    &&& before.func_maps@.is_prefix_of(after.func_maps@)
    &&& before.associated is Some ==> after.associated == before.associated
    &&& before.associated_type_map is Some ==> after.associated_type_map
        == before.associated_type_map
    &&& before.modules is Some ==> after.modules == before.modules
    &&& before.module_aliases ==> after.module_aliases
    &&& before.systems is Some ==> after.systems == before.systems
    &&& before.default_module is Some ==> after.default_module == before.default_module
    &&& before.type_names is Some ==> after.type_names == before.type_names
    &&& before.default_system is Some ==> after.default_system == before.default_system
    &&& before.reduced@.is_prefix_of(after.reduced@)
}

/// The errors in the first outcomes do not depend on those behind them.
proof fn lemma_outcome_errors_prefix<T>(
    before: Seq<Result<T, CascadeErrors>>,
    after: Seq<Result<T, CascadeErrors>>,
    count: nat,
)
    requires
        before.is_prefix_of(after),
        count <= before.len(),
    ensures
        outcome_errors(before, count) == outcome_errors(after, count),
    decreases count,
{
    if count > 0 {
        lemma_outcome_errors_prefix(before, after, (count - 1) as nat);
        assert(before[count - 1] == after[count - 1]);
    }
}

/// The policies of the first files do not depend on those behind them.
proof fn lemma_loaded_policies_prefix(
    before: Seq<Result<PolicyFile, CascadeErrors>>,
    after: Seq<Result<PolicyFile, CascadeErrors>>,
    count: nat,
)
    requires
        before.is_prefix_of(after),
        count <= before.len(),
    ensures
        loaded_policies(before, count) == loaded_policies(after, count),
    decreases count,
{
    if count > 0 {
        lemma_loaded_policies_prefix(before, after, (count - 1) as nat);
        assert(before[count - 1] == after[count - 1]);
    }
}

/// Reducing that has come to its end comes to the same end with more answers.
proof fn lemma_reducing_prefix(
    policies: nat,
    names: Seq<Seq<char>>,
    systems: Seq<Seq<char>>,
    before: Seq<Result<Vec<Sexp>, CascadeErrors>>,
    after: Seq<Result<Vec<Sexp>, CascadeErrors>>,
    from: nat,
)
    requires
        before.is_prefix_of(after),
    ensures
        reducing(policies, names, systems, before, from) is Done ==> reducing(
            policies,
            names,
            systems,
            after,
            from,
        ) == reducing(policies, names, systems, before, from),
    decreases names.len() - from,
{
    if from < names.len() {
        lemma_reducing_prefix(policies, names, systems, before, after, from + 1);
        let answer = known_count(names, systems, from);
        if answer < before.len() {
            assert(before[answer as int] == after[answer as int]);
        }
    }
}

/// The CIL texts do not depend on answers behind those that they are made of.
proof fn lemma_compiled_prefix(
    names: Seq<Seq<char>>,
    systems: Seq<Seq<char>>,
    before: Seq<Result<Vec<Sexp>, CascadeErrors>>,
    after: Seq<Result<Vec<Sexp>, CascadeErrors>>,
    count: nat,
)
    requires
        before.is_prefix_of(after),
        known_count(names, systems, count) <= before.len(),
    ensures
        compiled(names, systems, before, count) == compiled(names, systems, after, count),
    decreases count,
{
    if count > 0 {
        lemma_known_count_grows(names, systems, (count - 1) as nat, count);
        lemma_compiled_prefix(names, systems, before, after, (count - 1) as nat);
    }
}

/// A compilation that has come to its end stays there: with more answers it has the same result.
pub proof fn lemma_done_is_final(
    policies: nat,
    names: Seq<Seq<char>>,
    create_default_system: bool,
    before: Replies,
    after: Replies,
)
    requires
        holds_more(before, after),
        compiling(policies, names, create_default_system, before) is Done,
    ensures
        compiling(policies, names, create_default_system, after) == compiling(
            policies,
            names,
            create_default_system,
            before,
        ),
{
    if policies <= before.type_maps@.len() {
        lemma_outcome_errors_prefix(before.type_maps@, after.type_maps@, policies);
    }
    if policies <= before.global_bindings@.len() {
        lemma_outcome_errors_prefix(before.global_bindings@, after.global_bindings@, policies);
    }
    if policies <= before.extends@.len() {
        lemma_outcome_errors_prefix(before.extends@, after.extends@, policies);
    }
    if policies <= before.func_maps@.len() {
        lemma_outcome_errors_prefix(before.func_maps@, after.func_maps@, policies);
    }
    assert(declaring(policies, after) == declaring(policies, before));
    if let Decision::Done(Ok(count)) = declaring(policies, before) {
        assert(validating(count, names, create_default_system, after) == validating(
            count,
            names,
            create_default_system,
            before,
        ));
        if let Decision::Done(Ok(systems)) = validating(
            count,
            names,
            create_default_system,
            before,
        ) {
            lemma_reducing_prefix(count, names, systems, before.reduced@, after.reduced@, 0);
            if reducing(count, names, systems, before.reduced@, 0) matches Decision::Done(Ok(_)) {
                lemma_reducing_done(count, names, systems, before.reduced@, 0);
                lemma_compiled_prefix(
                    names,
                    systems,
                    before.reduced@,
                    after.reduced@,
                    names.len(),
                );
            }
        }
    }
}

/// A compilation of input files that has come to its end stays there, whatever is compiled.
pub proof fn lemma_done_is_final_for_files(
    files: Seq<Seq<char>>,
    names: Seq<Seq<char>>,
    before: Replies,
    after: Replies,
)
    requires
        holds_more(before, after),
    ensures
        compiling_combined(files, before) is Done ==> compiling_combined(files, after)
            == compiling_combined(files, before),
        compiling_systems(files, names, before) is Done ==> compiling_systems(files, names, after)
            == compiling_systems(files, names, before),
        compiling_all_systems(files, before) is Done ==> compiling_all_systems(files, after)
            == compiling_all_systems(files, before),
{
    if files.len() <= before.files@.len() {
        lemma_outcome_errors_prefix(before.files@, after.files@, files.len());
        lemma_loaded_policies_prefix(before.files@, after.files@, files.len());
    }
    if let Decision::Done(Ok(policies)) = reading(files, before) {
        let count = policies.len();
        if compiling(count, seq!["out"@], true, before) is Done {
            lemma_done_is_final(count, seq!["out"@], true, before, after);
        }
        if compiling(count, names, false, before) is Done {
            lemma_done_is_final(count, names, false, before, after);
        }
        if compiling(count, all_systems(policies), false, before) is Done {
            lemma_done_is_final(count, all_systems(policies), false, before, after);
        }
    }
}

/// What is asked for while the policies are reduced: the system at the first place from `from` on
/// for which there is no answer yet.
pub proof fn lemma_reducing_asks(
    policies: nat,
    names: Seq<Seq<char>>,
    systems: Seq<Seq<char>>,
    reduced: Seq<Result<Vec<Sexp>, CascadeErrors>>,
    from: nat,
)
    requires
        known_count(names, systems, from) <= reduced.len(),
    ensures
        reducing(policies, names, systems, reduced, from) matches Decision::Ask(q) ==> {
            &&& q matches RequestView::ReducedInfos { position, system, policies: count }
            &&& from <= position < names.len()
            &&& system == names[position as int]
            &&& systems.contains(system)
            &&& count == policies
            &&& known_count(names, systems, position) == reduced.len()
        },
    decreases names.len() - from,
{
    if from < names.len() {
        let answer = known_count(names, systems, from);
        if !systems.contains(names[from as int]) || answer < reduced.len() {
            lemma_reducing_asks(policies, names, systems, reduced, from + 1);
        }
    }
}

/// With an answer to what was asked for, reducing moves on to a later place.
proof fn lemma_reducing_moves_forward(
    policies: nat,
    names: Seq<Seq<char>>,
    systems: Seq<Seq<char>>,
    reduced: Seq<Result<Vec<Sexp>, CascadeErrors>>,
    answer: Result<Vec<Sexp>, CascadeErrors>,
    from: nat,
)
    requires
        known_count(names, systems, from) <= reduced.len(),
        reducing(policies, names, systems, reduced, from) is Ask,
    ensures
        reducing(policies, names, systems, reduced.push(answer), from) matches Decision::Ask(q)
            ==> place_of(reducing(policies, names, systems, reduced, from)->Ask_0) < place_of(q),
        reducing(policies, names, systems, reduced.push(answer), from) matches Decision::Ask(q)
            ==> q is ReducedInfos,
    decreases names.len() - from,
{
    let more = reduced.push(answer);
    let known = known_count(names, systems, from);
    lemma_reducing_asks(policies, names, systems, reduced, from);
    if !systems.contains(names[from as int]) || known < reduced.len() {
        if known < reduced.len() {
            assert(more[known as int] == reduced[known as int]);
        }
        lemma_reducing_moves_forward(policies, names, systems, reduced, answer, from + 1);
    } else {
        lemma_reducing_asks(policies, names, systems, more, from + 1);
    }
}

/// A compilation moves forward: once a request has been answered, the next one, if there is one,
/// is in a later step, or in the same step at a later place. So nothing is asked for twice, and
/// the compilation ends.
pub proof fn lemma_moves_forward(
    policies: nat,
    names: Seq<Seq<char>>,
    create_default_system: bool,
    before: Replies,
    reply: Reply,
    after: Replies,
)
    requires
        compiling(policies, names, create_default_system, before) is Ask,
        answers(compiling(policies, names, create_default_system, before)->Ask_0, reply),
        recorded(before, reply, after),
    ensures
        compiling(policies, names, create_default_system, after) matches Decision::Ask(q)
            ==> comes_behind(
            compiling(policies, names, create_default_system, before)->Ask_0,
            q,
        ),
{
    if let Decision::Done(Ok(count)) = declaring(policies, before) {
        if let Decision::Done(Ok(systems)) = validating(
            count,
            names,
            create_default_system,
            before,
        ) {
            lemma_reducing_asks(count, names, systems, before.reduced@, 0);
            let answer = reply->ReducedInfos_0;
            lemma_reducing_moves_forward(count, names, systems, before.reduced@, answer, 0);
        }
    }
    if let Decision::Done(Ok(count)) = declaring(policies, after) {
        if let Decision::Done(Ok(systems)) = validating(
            count,
            names,
            create_default_system,
            after,
        ) {
            lemma_reducing_asks(count, names, systems, after.reduced@, 0);
        }
    }
}

/// An answer to what was asked for takes no other answer away.
pub proof fn lemma_answers_are_kept(
    policies: nat,
    names: Seq<Seq<char>>,
    create_default_system: bool,
    before: Replies,
    reply: Reply,
    after: Replies,
)
    requires
        compiling(policies, names, create_default_system, before) is Ask,
        answers(compiling(policies, names, create_default_system, before)->Ask_0, reply),
        recorded(before, reply, after),
    ensures
        holds_more(before, after),
{
    if let Decision::Done(Ok(count)) = declaring(policies, before) {
        if let Decision::Done(Ok(systems)) = validating(
            count,
            names,
            create_default_system,
            before,
        ) {
            lemma_reducing_asks(count, names, systems, before.reduced@, 0);
        }
    }
}

/// A compilation of input files moves forward, whatever is compiled: once a request has been
/// answered, the next one, if there is one, is in a later step, or in the same step at a later
/// place.
pub proof fn lemma_moves_forward_for_files(
    files: Seq<Seq<char>>,
    names: Seq<Seq<char>>,
    before: Replies,
    reply: Reply,
    after: Replies,
)
    requires
        recorded(before, reply, after),
    ensures
        (compiling_combined(files, before) matches Decision::Ask(asked) && answers(asked, reply))
            ==> (compiling_combined(files, after) matches Decision::Ask(q) ==> comes_behind(
            compiling_combined(files, before)->Ask_0,
            q,
        )),
        (compiling_systems(files, names, before) matches Decision::Ask(asked) && answers(
            asked,
            reply,
        )) ==> (compiling_systems(files, names, after) matches Decision::Ask(q) ==> comes_behind(
            compiling_systems(files, names, before)->Ask_0,
            q,
        )),
        (compiling_all_systems(files, before) matches Decision::Ask(asked) && answers(
            asked,
            reply,
        )) ==> (compiling_all_systems(files, after) matches Decision::Ask(q) ==> comes_behind(
            compiling_all_systems(files, before)->Ask_0,
            q,
        )),
{
    if let Decision::Done(Ok(policies)) = reading(files, before) {
        let count = policies.len();
        if reply !is ReadPolicy {
            let out = seq!["out"@];
            let all = all_systems(policies);
            if compiling(count, out, true, before) is Ask && answers(
                compiling(count, out, true, before)->Ask_0,
                reply,
            ) {
                lemma_moves_forward(count, out, true, before, reply, after);
            }
            if compiling(count, names, false, before) is Ask && answers(
                compiling(count, names, false, before)->Ask_0,
                reply,
            ) {
                lemma_moves_forward(count, names, false, before, reply, after);
            }
            if compiling(count, all, false, before) is Ask && answers(
                compiling(count, all, false, before)->Ask_0,
                reply,
            ) {
                lemma_moves_forward(count, all, false, before, reply, after);
            }
        } else {
            lemma_requests_are_in_range(count, seq!["out"@], true, before);
            lemma_requests_are_in_range(count, names, false, before);
            lemma_requests_are_in_range(count, all_systems(policies), false, before);
        }
    } else if let Decision::Done(Ok(policies)) = reading(files, after) {
        let count = policies.len();
        lemma_requests_are_in_range(count, seq!["out"@], true, after);
        lemma_requests_are_in_range(count, names, false, after);
        lemma_requests_are_in_range(count, all_systems(policies), false, after);
    }
}

/// What a request says of the policies and the names that it is about: a policy that it names is
/// one of those there are, and a system that it names stands in the list at the place it gives.
pub proof fn lemma_requests_are_in_range(
    policies: nat,
    names: Seq<Seq<char>>,
    create_default_system: bool,
    replies: Replies,
)
    ensures
        compiling(policies, names, create_default_system, replies) matches Decision::Ask(q)
            ==> match q {
            RequestView::ReadPolicy { .. } => false,
            RequestView::ExtendTypeMap(i) => i < policies,
            RequestView::GlobalBindings(i) => i < policies,
            RequestView::VerifyExtends(i) => i < policies,
            RequestView::BuildFuncMap(i) => i < policies,
            RequestView::ValidateModules(n) => policies <= n <= policies + 1,
            RequestView::ValidateSystems(n) => policies <= n <= policies + 1,
            RequestView::DefaultModule(_) => create_default_system,
            RequestView::TypeNames => create_default_system,
            RequestView::InsertSystem(_) => create_default_system,
            RequestView::ReducedInfos { position, system, policies: n } => {
                &&& position < names.len()
                &&& system == names[position as int]
                &&& policies <= n <= policies + 1
            },
            _ => true,
        },
{
    if let Decision::Done(Ok(count)) = declaring(policies, replies) {
        if let Decision::Done(Ok(systems)) = validating(
            count,
            names,
            create_default_system,
            replies,
        ) {
            lemma_reducing_asks(count, names, systems, replies.reduced@, 0);
        }
    }
}

/// How many requests there can still be behind one, if no place is beyond `bound`.
pub open spec fn requests_left(request: RequestView, bound: nat) -> int {
    (15 - step_of(request)) * (bound + 1) + (bound - place_of(request))
}

/// A request that comes behind another leaves fewer requests to come, so no compilation goes on
/// for ever.
pub proof fn lemma_requests_run_out(first: RequestView, second: RequestView, bound: nat)
    requires
        comes_behind(first, second),
        place_of(first) <= bound,
        place_of(second) <= bound,
    ensures
        0 <= requests_left(second, bound) < requests_left(first, bound),
{
    let a: int = 15 - step_of(first);
    let b: int = 15 - step_of(second);
    let width: int = bound as int + 1;
    assert(0 <= b * width) by (nonlinear_arith)
        requires
            b >= 0,
            width >= 1,
    ;
    if step_of(first) < step_of(second) {
        assert((b + 1) * width <= a * width) by (nonlinear_arith)
            requires
                b + 1 <= a,
                width >= 1,
        ;
        assert((b + 1) * width == b * width + width) by (nonlinear_arith);
    }
}

/// A step is taken only if nothing went wrong in the major steps before it.
pub proof fn lemma_asks_only_after_clean_steps(
    policies: nat,
    names: Seq<Seq<char>>,
    create_default_system: bool,
    replies: Replies,
)
    ensures
        compiling(policies, names, create_default_system, replies) matches Decision::Ask(q) ==> {
            &&& step_of(q) > 1 ==> (replies.built_in_types matches Some(Ok(_)))
            &&& step_of(q) > 2 ==> outcome_errors(replies.type_maps@, policies).len() == 0
            &&& step_of(q) > 3 ==> outcome_errors(replies.global_bindings@, policies).len() == 0
            &&& step_of(q) > 5 ==> outcome_errors(replies.extends@, policies).len() == 0
            &&& step_of(q) > 8 ==> outcome_errors(replies.func_maps@, policies).len() == 0
            &&& step_of(q) > 8 ==> association_errors(replies).len() == 0
            &&& step_of(q) > 9 ==> (replies.modules matches Some(Ok(_)))
            &&& step_of(q) > 11 ==> (replies.systems matches Some(Ok(_)))
        },
{
    if let Decision::Done(Ok(count)) = declaring(policies, replies) {
        if let Decision::Done(Ok(systems)) = validating(
            count,
            names,
            create_default_system,
            replies,
        ) {
            lemma_reducing_asks(count, names, systems, replies.reduced@, 0);
        }
    }
}

/// The one system that is ever added to those of the policies is the default system of the
/// combined policy: its name is `out`, its module holds every type, and it allows unknown
/// permissions.
pub proof fn lemma_only_combined_adds_a_system(
    files: Seq<Seq<char>>,
    names: Seq<Seq<char>>,
    replies: Replies,
)
    ensures
        compiling_combined(files, replies) matches Decision::Ask(RequestView::InsertSystem(s))
            ==> replies.type_names is Some && s == default_system(
            "out"@,
            texts(replies.type_names->0@),
        ),
        !(compiling_systems(files, names, replies) matches Decision::Ask(
            RequestView::InsertSystem(_),
        )),
        !(compiling_all_systems(files, replies) matches Decision::Ask(
            RequestView::InsertSystem(_),
        )),
{
    if let Decision::Done(Ok(policies)) = reading(files, replies) {
        let count = policies.len();
        lemma_requests_are_in_range(count, names, false, replies);
        lemma_requests_are_in_range(count, all_systems(policies), false, replies);
        if let Decision::Done(Ok(total)) = declaring(count, replies) {
            if let Decision::Done(Ok(systems)) = validating(total, seq!["out"@], true, replies) {
                lemma_reducing_asks(total, seq!["out"@], systems, replies.reduced@, 0);
            }
        }
    }
}

/// The answers on the files stay those on the files that were asked for. If every answer so far is
/// what came of loading the file at its place, and the next file is answered with what was read of
/// it, the same holds with one answer more.
pub proof fn lemma_files_are_answered_in_order(
    files: Seq<Seq<char>>,
    contents: Seq<FileContent>,
    before: Replies,
    reply: Reply,
    after: Replies,
)
    requires
        answered_with(files, contents, before, before.files@.len()),
        before.files@.len() < contents.len(),
        reading(files, before) is Ask,
        answers(reading(files, before)->Ask_0, reply),
        reply matches Reply::ReadPolicy { content, .. } && content
            == contents[before.files@.len() as int],
        recorded(before, reply, after),
    ensures
        after.files@.len() == before.files@.len() + 1,
        answered_with(files, contents, after, after.files@.len()),
{
    let count = before.files@.len();
    assert forall|i: int| 0 <= i < count + 1 implies loaded(
        files[i],
        contents[i],
        #[trigger] after.files@[i],
    ) by {
        if i < count {
            assert(after.files@[i] == before.files@[i]);
        }
    }
}

/// Which policies a request is about. A place names the policy of the files at that place; a count
/// names the policies of the files, and the one that the annotations gave rise to if its types
/// were added; `ExtendAssociated` is about that last one. All are found in the list of numbered
/// policies.
pub proof fn lemma_places_name_policies(
    files: Seq<Seq<char>>,
    names: Seq<Seq<char>>,
    create_default_system: bool,
    replies: Replies,
)
    requires
        replies.files@.len() == files.len(),
        reading(files, replies) matches Decision::Done(Ok(_)),
    ensures
        ({
            let policies = reading(files, replies)->Done_0->Ok_0;
            let numbered = numbered_policies(replies);
            let all = match (replies.associated, replies.associated_type_map) {
                (Some(Ok(p)), Some(Ok(_))) => policies.push(p),
                _ => policies,
            };
            compiling(policies.len(), names, create_default_system, replies) matches Decision::Ask(
                q,
            ) ==> match q {
                RequestView::ExtendTypeMap(i) => i < policies.len() && numbered[i as int]
                    == policies[i as int],
                RequestView::GlobalBindings(i) => i < policies.len() && numbered[i as int]
                    == policies[i as int],
                RequestView::VerifyExtends(i) => i < policies.len() && numbered[i as int]
                    == policies[i as int],
                RequestView::BuildFuncMap(i) => i < policies.len() && numbered[i as int]
                    == policies[i as int],
                RequestView::ExtendAssociated => numbered.len() == policies.len() + 1
                    && replies.associated == Some(
                    Ok::<PolicyFile, CascadeErrors>(numbered.last()),
                ),
                RequestView::ValidateModules(n) => n <= numbered.len() && numbered.take(n as int)
                    == all,
                RequestView::ValidateSystems(n) => n <= numbered.len() && numbered.take(n as int)
                    == all,
                RequestView::ReducedInfos { policies: n, .. } => n <= numbered.len()
                    && numbered.take(n as int) == all,
                _ => true,
            }
        }),
{
    let policies = reading(files, replies)->Done_0->Ok_0;
    let numbered = numbered_policies(replies);
    lemma_requests_are_in_range(policies.len(), names, create_default_system, replies);
    assert(numbered.take(policies.len() as int) =~= policies);
    assert(numbered.take(numbered.len() as int) =~= numbered);
    if let Decision::Done(Ok(count)) = declaring(policies.len(), replies) {
        if let Decision::Done(Ok(systems)) = validating(
            count,
            names,
            create_default_system,
            replies,
        ) {
            lemma_reducing_asks(count, names, systems, replies.reduced@, 0);
        }
    }
}

} // verus!
