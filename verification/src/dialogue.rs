//! What the driver asks of the stages of the compiler, and what they answer.
//!
//! The driver decides what is to be done next from the answers that it has so far. Whoever runs a
//! compilation performs the [`Request`] in a [`Step::Ask`], hands its [`Reply`] to
//! [`Replies::record`] and takes the next step, until a step is [`Step::Done`].
use vstd::hash_map::StringHashMap;
use vstd::prelude::*;

use crate::ast::{
    simple_file_name, simple_file_source, Expression, Policies, Policy, PolicyFile,
};
use crate::error::{CascadeErrors, ErrorItemView};
use crate::load::{load_policy, loaded, FileContent};
use crate::plan::{loaded_policies, numbered_policies};
use crate::sexp::Sexp;
use crate::text::{contains_text, lemma_push_to_set, lemma_texts, texts};

verus! {

/// A module that has passed validation: its name and the names of the types in it, each once.
#[derive(Debug)]
pub struct ValidatedModule {
    pub name: String,
    pub types: Vec<String>,
}

/// A [`ValidatedModule`] with texts in place of strings.
#[verifier::ext_equal]
pub struct ValidatedModuleView {
    pub name: Seq<char>,
    pub types: Set<Seq<char>>,
}

/// The system that stands for everything that the policies declare.
#[derive(Debug)]
pub struct DefaultSystem {
    pub name: String,
    pub module: ValidatedModule,
    /// What becomes of permissions that the policy does not know.
    pub handle_unknown_perms: String,
}

/// A [`DefaultSystem`] with texts in place of strings.
#[verifier::ext_equal]
pub struct DefaultSystemView {
    pub name: Seq<char>,
    pub module: ValidatedModuleView,
    pub handle_unknown_perms: Seq<char>,
}

impl View for ValidatedModule {
    type V = ValidatedModuleView;

    open spec fn view(&self) -> ValidatedModuleView {
        ValidatedModuleView { name: self.name@, types: texts(self.types@).to_set() }
    }
}

impl View for DefaultSystem {
    type V = DefaultSystemView;

    open spec fn view(&self) -> DefaultSystemView {
        DefaultSystemView {
            name: self.name@,
            module: self.module@,
            handle_unknown_perms: self.handle_unknown_perms@,
        }
    }
}

impl ValidatedModule {
    /// No type is listed twice.
    pub open spec fn well_formed(&self) -> bool {
        texts(self.types@).no_duplicates()
    }

    /// A module without types.
    pub fn new(name: String) -> (module: Self)
        ensures
            module.well_formed(),
            module@ == (ValidatedModuleView { name: name@, types: Set::empty() }),
    {
        let module = ValidatedModule { name, types: Vec::new() };
        assert(module@.types =~= Set::empty());
        module
    }

    /// Puts a type into the module, unless it is in it already.
    pub fn insert_type(&mut self, name: &String)
        requires
            old(self).well_formed(),
        ensures
            final(self).well_formed(),
            final(self)@ == (ValidatedModuleView {
                name: old(self)@.name,
                types: old(self)@.types.insert(name@),
            }),
    {
        let ghost before = texts(self.types@);
        if !contains_text(&self.types, name) {
            self.types.push(name.clone());
            proof {
                let after = texts(self.types@);
                assert(after =~= before.push(name@));
                lemma_push_to_set(before, name@);
            }
        } else {
            assert(before.to_set() =~= before.to_set().insert(name@));
        }
    }
}

/// What the driver asks of the stages. A policy is named by its place among the policies: those
/// of the input files in their order, then the one that the annotations gave rise to.
#[derive(Debug)]
pub enum Request {
    /// Read the input file `file`, the one at this place, and parse it.
    ReadPolicy { position: usize, file: String },
    /// Set up the object classes and the built-in types.
    BuiltInTypes,
    /// Add the types that this policy declares.
    ExtendTypeMap(usize),
    /// Bind the global symbols of this policy.
    GlobalBindings(usize),
    /// Collect the aliases of the types and set them.
    TypeAliases,
    /// Check the extensions in this policy.
    VerifyExtends(usize),
    /// Collect the functions that this policy declares.
    BuildFuncMap(usize),
    /// Find the expressions that the annotations give rise to.
    AssociateAnnotations,
    /// Add the types that the policy made of those expressions declares.
    ExtendAssociated,
    /// Validate the modules of so many policies.
    ValidateModules(usize),
    /// Collect the aliases of the modules and set them.
    ModuleAliases,
    /// Validate the systems of so many policies.
    ValidateSystems(usize),
    /// Validate this module.
    DefaultModule(ValidatedModule),
    /// List the names of all types.
    TypeNames,
    /// Add this system to the validated ones.
    InsertSystem(DefaultSystem),
    /// Reduce so many policies to what the system at this place of the list needs.
    ReducedInfos { position: usize, system: String, policies: usize },
}

/// A [`Request`] with numbers and texts in place of machine integers and strings.
pub enum RequestView {
    ReadPolicy { position: nat, file: Seq<char> },
    BuiltInTypes,
    ExtendTypeMap(nat),
    GlobalBindings(nat),
    TypeAliases,
    VerifyExtends(nat),
    BuildFuncMap(nat),
    AssociateAnnotations,
    ExtendAssociated,
    ValidateModules(nat),
    ModuleAliases,
    ValidateSystems(nat),
    DefaultModule(ValidatedModuleView),
    TypeNames,
    InsertSystem(DefaultSystemView),
    ReducedInfos { position: nat, system: Seq<char>, policies: nat },
}

impl View for Request {
    type V = RequestView;

    open spec fn view(&self) -> RequestView {
        match *self {
            Request::ReadPolicy { position, file } => {
                RequestView::ReadPolicy { position: position as nat, file: file@ }
            },
            Request::BuiltInTypes => RequestView::BuiltInTypes,
            Request::ExtendTypeMap(i) => RequestView::ExtendTypeMap(i as nat),
            Request::GlobalBindings(i) => RequestView::GlobalBindings(i as nat),
            Request::TypeAliases => RequestView::TypeAliases,
            Request::VerifyExtends(i) => RequestView::VerifyExtends(i as nat),
            Request::BuildFuncMap(i) => RequestView::BuildFuncMap(i as nat),
            Request::AssociateAnnotations => RequestView::AssociateAnnotations,
            Request::ExtendAssociated => RequestView::ExtendAssociated,
            Request::ValidateModules(n) => RequestView::ValidateModules(n as nat),
            Request::ModuleAliases => RequestView::ModuleAliases,
            Request::ValidateSystems(n) => RequestView::ValidateSystems(n as nat),
            Request::DefaultModule(module) => RequestView::DefaultModule(module@),
            Request::TypeNames => RequestView::TypeNames,
            Request::InsertSystem(system) => RequestView::InsertSystem(system@),
            Request::ReducedInfos { position, system, policies } => {
                RequestView::ReducedInfos {
                    position: position as nat,
                    system: system@,
                    policies: policies as nat,
                }
            },
        }
    }
}

impl Request {
    /// A module that is handed out lists no type twice.
    pub open spec fn well_formed(&self) -> bool {
        match *self {
            Request::DefaultModule(module) => module.well_formed(),
            Request::InsertSystem(system) => system.module.well_formed(),
            _ => true,
        }
    }
}

/// What a stage answers. Each variant answers the request of the same name.
#[derive(Debug)]
pub enum Reply {
    /// What was read of the file of this name.
    ReadPolicy { file: String, content: FileContent },
    BuiltInTypes(Result<(), CascadeErrors>),
    ExtendTypeMap(Result<(), CascadeErrors>),
    GlobalBindings(Result<(), CascadeErrors>),
    TypeAliases,
    VerifyExtends(Result<(), CascadeErrors>),
    BuildFuncMap(Result<(), CascadeErrors>),
    AssociateAnnotations(Result<Vec<Expression>, CascadeErrors>),
    ExtendAssociated(Result<(), CascadeErrors>),
    ValidateModules(Result<(), CascadeErrors>),
    ModuleAliases,
    /// The names of the validated systems, in the order in which they are kept.
    ValidateSystems(Result<Vec<String>, CascadeErrors>),
    DefaultModule(Result<(), CascadeErrors>),
    TypeNames(Vec<String>),
    /// The names of the validated systems, the added one among them.
    InsertSystem(Result<Vec<String>, CascadeErrors>),
    ReducedInfos(Result<Vec<Sexp>, CascadeErrors>),
}

/// The answers so far. Answers to a request that is made once for each policy, file or system
/// stand in the order of the requests.
#[derive(Debug)]
pub struct Replies {
    pub files: Vec<Result<PolicyFile, CascadeErrors>>,
    pub built_in_types: Option<Result<(), CascadeErrors>>,
    pub type_maps: Vec<Result<(), CascadeErrors>>,
    pub global_bindings: Vec<Result<(), CascadeErrors>>,
    pub type_aliases: bool,
    pub extends: Vec<Result<(), CascadeErrors>>,
    pub func_maps: Vec<Result<(), CascadeErrors>>,
    pub associated: Option<Result<PolicyFile, CascadeErrors>>,
    pub associated_type_map: Option<Result<(), CascadeErrors>>,
    pub modules: Option<Result<(), CascadeErrors>>,
    pub module_aliases: bool,
    pub systems: Option<Result<Vec<String>, CascadeErrors>>,
    pub default_module: Option<Result<(), CascadeErrors>>,
    pub type_names: Option<Vec<String>>,
    pub default_system: Option<Result<Vec<String>, CascadeErrors>>,
    pub reduced: Vec<Result<Vec<Sexp>, CascadeErrors>>,
}

/// What `after` is when `reply` has been added to `before`: the answer stands behind those of its
/// kind, or in its one place, and nothing else has changed.
pub open spec fn recorded(before: Replies, reply: Reply, after: Replies) -> bool {
    match reply {
        Reply::ReadPolicy { file, content } => {
            &&& after.files@ == before.files@.push(after.files@.last())
            &&& loaded(file@, content, after.files@.last())
            &&& after == Replies { files: after.files, ..before }
        },
        Reply::BuiltInTypes(r) => after == Replies { built_in_types: Some(r), ..before },
        Reply::ExtendTypeMap(r) => {
            &&& after.type_maps@ == before.type_maps@.push(r)
            &&& after == Replies { type_maps: after.type_maps, ..before }
        },
        Reply::GlobalBindings(r) => {
            &&& after.global_bindings@ == before.global_bindings@.push(r)
            &&& after == Replies { global_bindings: after.global_bindings, ..before }
        },
        Reply::TypeAliases => after == Replies { type_aliases: true, ..before },
        Reply::VerifyExtends(r) => {
            &&& after.extends@ == before.extends@.push(r)
            &&& after == Replies { extends: after.extends, ..before }
        },
        Reply::BuildFuncMap(r) => {
            &&& after.func_maps@ == before.func_maps@.push(r)
            &&& after == Replies { func_maps: after.func_maps, ..before }
        },
        Reply::AssociateAnnotations(Ok(exprs)) => {
            &&& after.associated matches Some(Ok(p)) && {
                &&& p.policy.exprs@ == exprs@
                &&& p.spec_name() == Seq::<char>::empty()
                &&& p.spec_source() == Seq::<char>::empty()
            }
            &&& after == Replies { associated: after.associated, ..before }
        },
        Reply::AssociateAnnotations(Err(e)) => {
            after == Replies { associated: Some(Err(e)), ..before }
        },
        Reply::ExtendAssociated(r) => {
            after == Replies { associated_type_map: Some(r), ..before }
        },
        Reply::ValidateModules(r) => after == Replies { modules: Some(r), ..before },
        Reply::ModuleAliases => after == Replies { module_aliases: true, ..before },
        Reply::ValidateSystems(r) => after == Replies { systems: Some(r), ..before },
        Reply::DefaultModule(r) => after == Replies { default_module: Some(r), ..before },
        Reply::TypeNames(names) => after == Replies { type_names: Some(names), ..before },
        Reply::InsertSystem(r) => after == Replies { default_system: Some(r), ..before },
        Reply::ReducedInfos(r) => {
            &&& after.reduced@ == before.reduced@.push(r)
            &&& after == Replies { reduced: after.reduced, ..before }
        },
    }
}

/// Nothing has been answered.
pub open spec fn unanswered(replies: Replies) -> bool {
    &&& replies.files@.len() == 0
    &&& replies.built_in_types is None
    &&& replies.type_maps@.len() == 0
    &&& replies.global_bindings@.len() == 0
    &&& !replies.type_aliases
    &&& replies.extends@.len() == 0
    &&& replies.func_maps@.len() == 0
    &&& replies.associated is None
    &&& replies.associated_type_map is None
    &&& replies.modules is None
    &&& !replies.module_aliases
    &&& replies.systems is None
    &&& replies.default_module is None
    &&& replies.type_names is None
    &&& replies.default_system is None
    &&& replies.reduced@.len() == 0
}

impl Replies {
    /// No answers.
    pub fn new() -> (replies: Self)
        ensures
            unanswered(replies),
    {
        Replies {
            files: Vec::new(),
            built_in_types: None,
            type_maps: Vec::new(),
            global_bindings: Vec::new(),
            type_aliases: false,
            extends: Vec::new(),
            func_maps: Vec::new(),
            associated: None,
            associated_type_map: None,
            modules: None,
            module_aliases: false,
            systems: None,
            default_module: None,
            type_names: None,
            default_system: None,
            reduced: Vec::new(),
        }
    }

    /// The policies that a request can name by their places: those of the input files in their
    /// order, then the one that the annotations gave rise to.
    pub fn policies(&self) -> (policies: Policies<'_>)
        ensures
            policies@ == numbered_policies(*self),
    {
        let mut policies = Policies::new();
        for i in 0..self.files.len()
            invariant
                policies@ == loaded_policies(self.files@, i as nat),
        {
            if let Ok(p) = &self.files[i] {
                policies.push(p);
            }
        }
        if let Some(Ok(p)) = &self.associated {
            policies.push(p);
        }
        policies
    }

    /// Adds an answer to those so far. The expressions that the annotations gave rise to become a
    /// policy of their own, in a file without a name and without a text.
    pub fn record(&mut self, reply: Reply)
        ensures
            recorded(*old(self), reply, *final(self)),
    {
        match reply {
            Reply::ReadPolicy { file, content } => {
                let result = load_policy(file, content);
                self.files.push(result);
            },
            Reply::BuiltInTypes(r) => self.built_in_types = Some(r),
            Reply::ExtendTypeMap(r) => self.type_maps.push(r),
            Reply::GlobalBindings(r) => self.global_bindings.push(r),
            Reply::TypeAliases => self.type_aliases = true,
            Reply::VerifyExtends(r) => self.extends.push(r),
            Reply::BuildFuncMap(r) => self.func_maps.push(r),
            Reply::AssociateAnnotations(Ok(exprs)) => {
                let policy = Policy::new(exprs);
                self.associated = Some(Ok(PolicyFile::new(policy, String::new(), String::new())));
            },
            Reply::AssociateAnnotations(Err(e)) => self.associated = Some(Err(e)),
            Reply::ExtendAssociated(r) => self.associated_type_map = Some(r),
            Reply::ValidateModules(r) => self.modules = Some(r),
            Reply::ModuleAliases => self.module_aliases = true,
            Reply::ValidateSystems(r) => self.systems = Some(r),
            Reply::DefaultModule(r) => self.default_module = Some(r),
            Reply::TypeNames(names) => self.type_names = Some(names),
            Reply::InsertSystem(r) => self.default_system = Some(r),
            Reply::ReducedInfos(r) => self.reduced.push(r),
        }
    }
}

/// What comes next: a request, or the end of the compilation with its result.
#[derive(Debug)]
pub enum Step<T> {
    Ask(Request),
    Done(Result<T, CascadeErrors>),
}

/// A [`Step`] with views in place of its parts.
pub enum Decision<T> {
    Ask(RequestView),
    Done(Result<T, Seq<ErrorItemView>>),
}

impl<T: View> View for Step<T> {
    type V = Decision<T::V>;

    open spec fn view(&self) -> Decision<T::V> {
        match *self {
            Step::Ask(request) => Decision::Ask(request@),
            Step::Done(Ok(value)) => Decision::Done(Ok(value@)),
            Step::Done(Err(errors)) => Decision::Done(Err(errors@)),
        }
    }
}

/// The CIL text of each system that was compiled, by the name of the system.
pub struct CompiledSystems {
    policies: StringHashMap<String>,
    /// The names in `policies`, each once.
    names: Vec<String>,
}

impl View for CompiledSystems {
    type V = Map<Seq<char>, Seq<char>>;

    closed spec fn view(&self) -> Map<Seq<char>, Seq<char>> {
        self.policies@.map_values(|s: String| s@)
    }
}

impl CompiledSystems {
    #[verifier::type_invariant]
    spec fn names_are_keys(&self) -> bool {
        &&& texts(self.names@).no_duplicates()
        &&& texts(self.names@).to_set() == self.policies@.dom()
    }

    /// No systems.
    pub fn new() -> (result: Self)
        ensures
            result@ == Map::<Seq<char>, Seq<char>>::empty(),
    {
        let policies = StringHashMap::new();
        let names: Vec<String> = Vec::new();
        assert(texts(names@).to_set() =~= policies@.dom());
        let result = CompiledSystems { policies, names };
        assert(result@ =~= Map::empty());
        result
    }

    /// The systems in `self` and the system `name` with the text `cil`, in place of what was kept
    /// for that name.
    pub fn with(self, name: String, cil: String) -> (result: Self)
        ensures
            result@ == self@.insert(name@, cil@),
    {
        proof {
            use_type_invariant(&self);
        }
        let CompiledSystems { policies, names } = self;
        let mut policies = policies;
        let mut names = names;
        let ghost before = texts(names@);
        if !policies.contains_key(name.as_str()) {
            assert(!before.to_set().contains(name@));
            names.push(name.clone());
            proof {
                let after = texts(names@);
                assert(after =~= before.push(name@));
                lemma_push_to_set(before, name@);
            }
        } else {
            assert(before.to_set().insert(name@) =~= before.to_set());
        }
        policies.insert(name, cil);
        assert(policies@.dom() =~= before.to_set().insert(name@));
        let result = CompiledSystems { policies, names };
        assert(result@ =~= self@.insert(name@, cil@));
        result
    }

    /// The CIL text of the system `name`, if it is one of those that were compiled.
    pub fn get(&self, name: &str) -> (cil: Option<&String>)
        ensures
            match cil {
                Some(text) => self@.contains_key(name@) && text@ == self@[name@],
                None => !self@.contains_key(name@),
            },
    {
        self.policies.get(name)
    }

    /// The names of the systems, each once.
    pub fn names(&self) -> (names: &Vec<String>)
        ensures
            texts(names@).no_duplicates(),
            texts(names@).to_set() == self@.dom(),
    {
        proof {
            use_type_invariant(self);
        }
        assert(self@.dom() =~= self.policies@.dom());
        &self.names
    }

    /// How many systems there are.
    pub fn len(&self) -> (count: usize)
        ensures
            count == self@.len(),
    {
        assert(self@.dom() =~= self.policies@.dom());
        self.policies.len()
    }
}

/// A request is to the contracts what it is: its kind, and the places and texts in it.
pub proof fn lemma_request_view(request: Request)
    ensures
        match request {
            Request::ReadPolicy { position, file } => {
                &&& request@ is ReadPolicy
                &&& request@->ReadPolicy_position == position
                &&& request@->file == file@
            },
            Request::BuiltInTypes => request@ is BuiltInTypes,
            Request::ExtendTypeMap(i) => request@ is ExtendTypeMap && request@->ExtendTypeMap_0
                == i,
            Request::GlobalBindings(i) => request@ is GlobalBindings && request@->GlobalBindings_0
                == i,
            Request::TypeAliases => request@ is TypeAliases,
            Request::VerifyExtends(i) => request@ is VerifyExtends && request@->VerifyExtends_0
                == i,
            Request::BuildFuncMap(i) => request@ is BuildFuncMap && request@->BuildFuncMap_0 == i,
            Request::AssociateAnnotations => request@ is AssociateAnnotations,
            Request::ExtendAssociated => request@ is ExtendAssociated,
            Request::ValidateModules(n) => request@ is ValidateModules
                && request@->ValidateModules_0 == n,
            Request::ModuleAliases => request@ is ModuleAliases,
            Request::ValidateSystems(n) => request@ is ValidateSystems
                && request@->ValidateSystems_0 == n,
            Request::DefaultModule(module) => {
                &&& request@ is DefaultModule
                &&& module_is(module, request@->DefaultModule_0)
            },
            Request::TypeNames => request@ is TypeNames,
            Request::InsertSystem(system) => {
                &&& request@ is InsertSystem
                &&& request@->InsertSystem_0.name == system.name@
                &&& request@->InsertSystem_0.handle_unknown_perms == system.handle_unknown_perms@
                &&& module_is(system.module, request@->InsertSystem_0.module)
            },
            Request::ReducedInfos { position, system, policies } => {
                &&& request@ is ReducedInfos
                &&& request@->ReducedInfos_position == position
                &&& request@->system == system@
                &&& request@->policies == policies
            },
        },
{
    match request {
        Request::DefaultModule(module) => lemma_module_is(module),
        Request::InsertSystem(system) => lemma_module_is(system.module),
        _ => {},
    }
}

/// The name of a module is the one in its view, and its types are those in its view.
pub open spec fn module_is(module: ValidatedModule, view: ValidatedModuleView) -> bool {
    &&& view.name == module.name@
    &&& forall|i: int|
        0 <= i < module.types@.len() ==> view.types.contains((#[trigger] module.types@[i])@)
    &&& forall|t: Seq<char>| #[trigger]
        view.types.contains(t) ==> exists|i: int|
            0 <= i < module.types@.len() && (#[trigger] module.types@[i])@ == t
}

proof fn lemma_module_is(module: ValidatedModule)
    ensures
        module_is(module, module@),
{
    let types = texts(module.types@);
    lemma_texts(module.types@);
    assert forall|i: int| 0 <= i < module.types@.len() implies module@.types.contains(
        (#[trigger] module.types@[i])@,
    ) by {
        assert(types[i] == module.types@[i]@);
        assert(types.contains(types[i]));
    }
    assert forall|t: Seq<char>| #[trigger] module@.types.contains(t) implies exists|i: int|
        0 <= i < module.types@.len() && (#[trigger] module.types@[i])@ == t by {
        let i = types.index_of(t);
        assert(types[i] == module.types@[i]@);
    }
}

/// A module that is well formed lists no type twice, and so does a module in a request that is.
pub proof fn lemma_no_type_is_listed_twice(request: Request)
    requires
        request.well_formed(),
    ensures
        match request {
            Request::DefaultModule(module) => all_differ(module.types@),
            Request::InsertSystem(system) => all_differ(system.module.types@),
            _ => true,
        },
{
    match request {
        Request::DefaultModule(module) => lemma_all_differ(module.types@),
        Request::InsertSystem(system) => lemma_all_differ(system.module.types@),
        _ => {},
    }
}

/// No two strings in a list are the same.
pub open spec fn all_differ(list: Seq<String>) -> bool {
    forall|i: int, j: int|
        0 <= i < j < list.len() ==> (#[trigger] list[i])@ != (#[trigger] list[j])@
}

proof fn lemma_all_differ(list: Seq<String>)
    requires
        texts(list).no_duplicates(),
    ensures
        all_differ(list),
{
    lemma_texts(list);
    assert forall|i: int, j: int| 0 <= i < j < list.len() implies (#[trigger] list[i])@ != (
    #[trigger] list[j])@ by {
        assert(texts(list)[i] == list[i]@);
        assert(texts(list)[j] == list[j]@);
    }
}

/// A step is to the contracts what it is: the request, the value or the errors.
pub proof fn lemma_step_view<T: View>(step: Step<T>)
    ensures
        match step {
            Step::Ask(request) => step@ is Ask && step@->Ask_0 == request@,
            Step::Done(Ok(value)) => step@ is Done && step@->Done_0 is Ok && step@->Done_0->Ok_0
                == value@,
            Step::Done(Err(errors)) => step@ is Done && step@->Done_0 is Err
                && step@->Done_0->Err_0 == errors@,
        },
{
}

/// Where a reply is kept: behind those of its kind or in its one place, as it was given, with
/// every other answer as it was. The expressions of the annotations, all of them, become a policy
/// without a name and a text, and what was read of a file becomes what loading the file gives.
pub proof fn lemma_reply_is_kept(before: Replies, reply: Reply, after: Replies)
    requires
        recorded(before, reply, after),
    ensures
        match reply {
            Reply::ReadPolicy { file, content } => {
                &&& after.files@.len() == before.files@.len() + 1
                &&& forall|i: int|
                    0 <= i < before.files@.len() ==> #[trigger] after.files@[i] == before.files@[i]
                &&& loaded(file@, content, after.files@[before.files@.len() as int])
            },
            _ => after.files@ == before.files@,
        },
        after.built_in_types == match reply {
            Reply::BuiltInTypes(r) => Some(r),
            _ => before.built_in_types,
        },
        after.type_maps@ == match reply {
            Reply::ExtendTypeMap(r) => before.type_maps@.push(r),
            _ => before.type_maps@,
        },
        after.global_bindings@ == match reply {
            Reply::GlobalBindings(r) => before.global_bindings@.push(r),
            _ => before.global_bindings@,
        },
        after.type_aliases == (before.type_aliases || reply is TypeAliases),
        after.extends@ == match reply {
            Reply::VerifyExtends(r) => before.extends@.push(r),
            _ => before.extends@,
        },
        after.func_maps@ == match reply {
            Reply::BuildFuncMap(r) => before.func_maps@.push(r),
            _ => before.func_maps@,
        },
        match reply {
            Reply::AssociateAnnotations(Ok(exprs)) => {
                &&& after.associated matches Some(Ok(p))
                &&& p.policy.exprs@ == exprs@
                &&& simple_file_name(p.file).len() == 0
                &&& simple_file_source(p.file).len() == 0
            },
            Reply::AssociateAnnotations(Err(e)) => after.associated == Some(
                Err::<PolicyFile, CascadeErrors>(e),
            ),
            _ => after.associated == before.associated,
        },
        after.associated_type_map == match reply {
            Reply::ExtendAssociated(r) => Some(r),
            _ => before.associated_type_map,
        },
        after.modules == match reply {
            Reply::ValidateModules(r) => Some(r),
            _ => before.modules,
        },
        after.module_aliases == (before.module_aliases || reply is ModuleAliases),
        after.systems == match reply {
            Reply::ValidateSystems(r) => Some(r),
            _ => before.systems,
        },
        after.default_module == match reply {
            Reply::DefaultModule(r) => Some(r),
            _ => before.default_module,
        },
        after.type_names == match reply {
            Reply::TypeNames(names) => Some(names),
            _ => before.type_names,
        },
        after.default_system == match reply {
            Reply::InsertSystem(r) => Some(r),
            _ => before.default_system,
        },
        after.reduced@ == match reply {
            Reply::ReducedInfos(r) => before.reduced@.push(r),
            _ => before.reduced@,
        },
{
}

/// Where nothing has been answered there is no answer of any kind.
pub proof fn lemma_nothing_is_answered(replies: Replies)
    requires
        unanswered(replies),
    ensures
        replies.files@ == Seq::<Result<PolicyFile, CascadeErrors>>::empty(),
        replies.type_maps@ == Seq::<Result<(), CascadeErrors>>::empty(),
        replies.global_bindings@ == Seq::<Result<(), CascadeErrors>>::empty(),
        replies.extends@ == Seq::<Result<(), CascadeErrors>>::empty(),
        replies.func_maps@ == Seq::<Result<(), CascadeErrors>>::empty(),
        replies.reduced@ == Seq::<Result<Vec<Sexp>, CascadeErrors>>::empty(),
        !replies.type_aliases && !replies.module_aliases,
        replies.built_in_types is None && replies.associated is None,
        replies.associated_type_map is None && replies.modules is None,
        replies.systems is None && replies.default_module is None,
        replies.type_names is None && replies.default_system is None,
{
}

} // verus!
