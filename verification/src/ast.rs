//! Policies, as far as the driver reads them.
use codespan_reporting::files::SimpleFile;
use vstd::prelude::*;

verus! {

/// The outside type [`codespan_reporting::files::SimpleFile`]: a file name, the text of the file,
/// and where its lines start.
#[verifier::external_type_specification]
#[verifier::external_body]
#[verifier::reject_recursive_types(Name)]
#[verifier::reject_recursive_types(Source)]
pub struct ExSimpleFile<Name, Source>(SimpleFile<Name, Source>);

/// What `SimpleFile::name` returns of a file.
pub uninterp spec fn simple_file_name(file: SimpleFile<String, String>) -> Seq<char>;

/// What `SimpleFile::source` returns of a file.
pub uninterp spec fn simple_file_source(file: SimpleFile<String, String>) -> Seq<char>;

/// Calls `SimpleFile::new`. The file that it makes answers `SimpleFile::name` and
/// `SimpleFile::source` with the two strings that were given.
#[verifier::external_body]
fn new_simple_file(name: String, source: String) -> (file: SimpleFile<String, String>)
    ensures
        simple_file_name(file) == name@,
        simple_file_source(file) == source@,
{
    SimpleFile::new(name, source)
}

/// Calls `SimpleFile::name`, whose result depends on the file alone.
#[verifier::external_body]
fn name_of_simple_file(file: &SimpleFile<String, String>) -> (name: &String)
    ensures
        name@ == simple_file_name(*file),
{
    file.name()
}

/// Calls `SimpleFile::source`, whose result depends on the file alone.
#[verifier::external_body]
fn source_of_simple_file(file: &SimpleFile<String, String>) -> (source: &String)
    ensures
        source@ == simple_file_source(*file),
{
    file.source()
}

/// A system that a policy declares.
#[derive(Debug)]
pub struct System {
    pub name: String,
}

/// A declaration. The driver reads those of systems; any other is known to it by a number, by
/// which the stage that works on it finds it again.
#[derive(Debug)]
pub enum Declaration {
    System(System),
    Other(u64),
}

/// One expression of a policy: a declaration, or anything else, known by a number.
#[derive(Debug)]
pub enum Expression {
    Decl(Declaration),
    Other(u64),
}

/// The expressions of one policy, in the order in which they are written.
#[derive(Debug)]
pub struct Policy {
    pub exprs: Vec<Expression>,
}

/// A policy and the file that it was read from.
#[derive(Debug)]
pub struct PolicyFile {
    pub policy: Policy,
    pub file: SimpleFile<String, String>,
}

impl Policy {
    pub fn new(exprs: Vec<Expression>) -> (policy: Self)
        ensures
            policy.exprs@ == exprs@,
    {
        Policy { exprs }
    }
}

impl PolicyFile {
    /// The name of the file.
    pub open spec fn spec_name(&self) -> Seq<char> {
        simple_file_name(self.file)
    }

    /// The text of the file.
    pub open spec fn spec_source(&self) -> Seq<char> {
        simple_file_source(self.file)
    }

    /// The policy `policy`, read from the file `name` with the text `source`.
    pub fn new(policy: Policy, name: String, source: String) -> (result: Self)
        ensures
            result.policy.exprs@ == policy.exprs@,
            result.spec_name() == name@,
            result.spec_source() == source@,
    {
        PolicyFile { policy, file: new_simple_file(name, source) }
    }

    /// The name of the file.
    pub fn name(&self) -> (name: &String)
        ensures
            name@ == self.spec_name(),
    {
        name_of_simple_file(&self.file)
    }

    /// The text of the file.
    pub fn source(&self) -> (source: &String)
        ensures
            source@ == self.spec_source(),
    {
        source_of_simple_file(&self.file)
    }
}

/// The policies of a compilation, in their order.
#[derive(Debug)]
pub struct Policies<'a> {
    files: Vec<&'a PolicyFile>,
}

impl<'a> View for Policies<'a> {
    type V = Seq<PolicyFile>;

    closed spec fn view(&self) -> Seq<PolicyFile> {
        self.files@.map_values(|p: &PolicyFile| *p)
    }
}

impl<'a> Policies<'a> {
    /// No policies.
    pub fn new() -> (policies: Self)
        ensures
            policies@ == Seq::<PolicyFile>::empty(),
    {
        let policies = Policies { files: Vec::new() };
        assert(policies@ =~= Seq::empty());
        policies
    }

    /// Adds a policy behind the others.
    pub fn push(&mut self, policy: &'a PolicyFile)
        ensures
            final(self)@ == old(self)@.push(*policy),
    {
        self.files.push(policy);
        assert(self@ =~= old(self)@.push(*policy));
    }

    /// How many policies there are.
    pub fn len(&self) -> (count: usize)
        ensures
            count == self@.len(),
    {
        self.files.len()
    }

    /// The policy at a place.
    pub fn get(&self, i: usize) -> (policy: &'a PolicyFile)
        requires
            i < self@.len(),
        ensures
            *policy == self@[i as int],
    {
        self.files[i]
    }
}

/// Whether an expression declares a system.
pub open spec fn declares_system(expr: Expression) -> bool {
    expr matches Expression::Decl(Declaration::System(_))
}

/// The name of the system that an expression declares.
pub open spec fn system_name(expr: Expression) -> Seq<char>
    recommends
        declares_system(expr),
{
    match expr {
        Expression::Decl(Declaration::System(system)) => system.name@,
        _ => Seq::empty(),
    }
}

/// The names of the systems that a policy declares, in the order of their declarations.
pub open spec fn declared_systems(exprs: Seq<Expression>) -> Seq<Seq<char>> {
    exprs.filter(|e: Expression| declares_system(e)).map_values(|e: Expression| system_name(e))
}

/// The name and the text of a policy file are those of the file that it holds.
pub proof fn lemma_policy_file_names_its_file(p: PolicyFile)
    ensures
        p.spec_name() == simple_file_name(p.file),
        p.spec_source() == simple_file_source(p.file),
{
}

/// Each declaration of a system gives one name, in the place of the declaration among the others,
/// and no other expression gives one.
pub proof fn lemma_declared_systems_grow(exprs: Seq<Expression>, expr: Expression)
    ensures
        declared_systems(Seq::empty()) == Seq::<Seq<char>>::empty(),
        match expr {
            Expression::Decl(Declaration::System(system)) => declared_systems(exprs.push(expr))
                == declared_systems(exprs).push(system.name@),
            _ => declared_systems(exprs.push(expr)) == declared_systems(exprs),
        },
{
    reveal(Seq::filter);
    assert(exprs.push(expr).drop_last() =~= exprs);
    assert(declared_systems(Seq::empty()) =~= Seq::empty());
    match expr {
        Expression::Decl(Declaration::System(system)) => {
            assert(declared_systems(exprs.push(expr)) =~= declared_systems(exprs).push(
                system.name@,
            ));
        },
        _ => {},
    }
}

/// The systems that a policy declares are those in its declarations, wherever they stand.
pub proof fn lemma_declared_systems_are_in_the_policy(exprs: Seq<Expression>, name: Seq<char>)
    ensures
        declared_systems(exprs).contains(name) <==> exists|j: int|
            0 <= j < exprs.len() && ((#[trigger] exprs[j]) matches Expression::Decl(
                Declaration::System(system),
            ) && system.name@ == name),
    decreases exprs.len(),
{
    if exprs.len() > 0 {
        let before = exprs.drop_last();
        let names = declared_systems(before);
        lemma_declared_systems_are_in_the_policy(before, name);
        lemma_declared_systems_grow(before, exprs.last());
        assert(before.push(exprs.last()) =~= exprs);
        assert forall|j: int| 0 <= j < before.len() implies #[trigger] before[j] == exprs[j] by {}
        if let Expression::Decl(Declaration::System(system)) = exprs.last() {
            let more = names.push(system.name@);
            if names.contains(name) {
                assert(more[names.index_of(name)] == name);
            }
            assert(more[names.len() as int] == system.name@);
            assert(more.contains(name) <==> names.contains(name) || name == system.name@);
        }
        if names.contains(name) {
            let j = choose|j: int|
                0 <= j < before.len() && ((#[trigger] before[j]) matches Expression::Decl(
                    Declaration::System(system),
                ) && system.name@ == name);
            assert(exprs[j] == before[j]);
        }
        if exists|j: int|
            0 <= j < exprs.len() && ((#[trigger] exprs[j]) matches Expression::Decl(
                Declaration::System(system),
            ) && system.name@ == name) {
            let j = choose|j: int|
                0 <= j < exprs.len() && ((#[trigger] exprs[j]) matches Expression::Decl(
                    Declaration::System(system),
                ) && system.name@ == name);
            if j < before.len() {
                assert(before[j] == exprs[j]);
            }
        }
    } else {
        lemma_declared_systems_grow(Seq::empty(), Expression::Other(0));
        assert(exprs =~= Seq::empty());
    }
}

} // verus!
