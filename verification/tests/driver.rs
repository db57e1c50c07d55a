use cascade::ast::{Declaration, Expression, Policies, Policy, PolicyFile, System};
use cascade::compile::{compile_system_policies_internal, get_policies};
use cascade::dialogue::{CompiledSystems, Replies, Reply, Request, Step};
use cascade::error::{
    CascadeErrors, CompileError, ErrorItem, IOError, InternalError, InvalidSystemError,
};
use cascade::load::{load_policy, parse_policy, FileContent, ParserOutput};
use cascade::sexp::{display_cil, generate_cil, Sexp};
use cascade::syntax::{ErrorRecovery, ParseErrorMsg, SyntaxError};
use cascade::{compile_combined, compile_system_policies, compile_system_policies_all};

fn atom(word: &str) -> Sexp {
    Sexp::Atom(word.to_string())
}

fn list(words: &[&str]) -> Sexp {
    Sexp::List(words.iter().map(|w| atom(w)).collect())
}

fn one_error(message: &str) -> CascadeErrors {
    let mut errors = CascadeErrors::new();
    errors.add_error(ErrorItem::Compile(CompileError { message: message.to_string() }));
    errors
}

fn strings(words: &[&str]) -> Vec<String> {
    words.iter().map(|w| w.to_string()).collect()
}

fn text(source: &str, exprs: Vec<Expression>) -> FileContent {
    FileContent::Text {
        source: source.to_string(),
        parsed: ParserOutput { recovered: Vec::new(), result: Ok(Policy::new(exprs)) },
    }
}

fn invalid_token(location: usize) -> SyntaxError {
    SyntaxError::InvalidToken { location }
}

fn recovery(location: usize) -> ErrorRecovery {
    ErrorRecovery {
        error: invalid_token(location),
        dropped_tokens: vec![(location, "x".to_string(), location + 1)],
    }
}

fn locations(errors: &[SyntaxError]) -> Vec<usize> {
    errors
        .iter()
        .map(|e| match e {
            SyntaxError::InvalidToken { location } => *location,
            _ => panic!("another error"),
        })
        .collect()
}

fn shown(errors: CascadeErrors) -> Vec<String> {
    errors
        .into_items()
        .iter()
        .map(|e| match e {
            ErrorItem::Compile(e) => format!("compile: {}", e.message),
            ErrorItem::Internal(_) => "internal".to_string(),
            ErrorItem::Parse(e) => format!("parse: {}: {}", e.file_name, e.message()),
            ErrorItem::InvalidSystem(e) => format!("system: {}", e.message),
            ErrorItem::IO(e) => format!("io: {}", e.message),
        })
        .collect()
}

fn failure<T>(step: Step<T>) -> Vec<String> {
    match step {
        Step::Done(Err(errors)) => shown(errors),
        Step::Done(Ok(_)) => panic!("compiled"),
        Step::Ask(request) => panic!("asks for {:?}", request),
    }
}

fn success<T>(step: Step<T>) -> T {
    match step {
        Step::Done(Ok(value)) => value,
        Step::Done(Err(errors)) => panic!("failed with {:?}", errors),
        Step::Ask(request) => panic!("asks for {:?}", request),
    }
}

fn asked<T>(step: Step<T>) -> Request {
    match step {
        Step::Ask(request) => request,
        Step::Done(_) => panic!("done"),
    }
}

/// The answers to a compilation of two files in which everything went well up to the systems.
fn two_files() -> Replies {
    let mut replies = Replies::new();
    for file in ["a.cas", "b.cas"] {
        replies.record(Reply::ReadPolicy { file: file.to_string(), content: text("", vec![]) });
    }
    replies.record(Reply::BuiltInTypes(Ok(())));
    for _ in 0..2 {
        replies.record(Reply::ExtendTypeMap(Ok(())));
        replies.record(Reply::GlobalBindings(Ok(())));
        replies.record(Reply::VerifyExtends(Ok(())));
        replies.record(Reply::BuildFuncMap(Ok(())));
    }
    replies.record(Reply::TypeAliases);
    replies.record(Reply::AssociateAnnotations(Ok(vec![Expression::Other(7)])));
    replies.record(Reply::ExtendAssociated(Ok(())));
    replies.record(Reply::ValidateModules(Ok(())));
    replies.record(Reply::ModuleAliases);
    replies.record(Reply::ValidateSystems(Ok(strings(&["one", "two"]))));
    replies
}

fn systems(names: &[&str], replies: &Replies) -> Step<CompiledSystems> {
    compile_system_policies(vec!["a.cas", "b.cas"], strings(names), replies)
}

#[test]
fn cil_of_words_and_lists() {
    assert_eq!(display_cil(&atom("\"/bin\"")), "\"/bin\"");
    assert_eq!(display_cil(&Sexp::List(vec![])), "()");
    let perms = Sexp::List(vec![atom("file"), list(&["read", "open", "getattr"])]);
    let rule = Sexp::List(vec![atom("allow"), atom("foo"), atom("bar"), perms]);
    assert_eq!(display_cil(&rule), "(allow foo bar (file (read open getattr)))");
}

#[test]
fn cil_stands_on_lines_of_its_own() {
    assert_eq!(generate_cil(&vec![]), "");
    assert_eq!(generate_cil(&vec![list(&["type", "a"])]), "(type a)");
    let first = vec![list(&["type", "a"]), list(&["type", "b"])];
    let second = vec![list(&["type", "c"])];
    let first_text = generate_cil(&first);
    let second_text = generate_cil(&second);
    let both: Vec<Sexp> = first.into_iter().chain(second).collect();
    assert_eq!(generate_cil(&both), "(type a)\n(type b)\n(type c)");
    assert_eq!(generate_cil(&both), format!("{}\n{}", first_text, second_text));
}

#[test]
fn parser_errors_are_turned_round() {
    let recovered = vec![recovery(30), recovery(20), recovery(10)];
    let result = Ok(Policy::new(vec![]));
    let errors = parse_policy(ParserOutput { recovered, result }).unwrap_err();
    assert_eq!(locations(&errors), vec![10, 20, 30]);

    let recovered = vec![recovery(20), recovery(10)];
    let result = Err(invalid_token(40));
    let errors = parse_policy(ParserOutput { recovered, result }).unwrap_err();
    assert_eq!(locations(&errors), vec![40, 10, 20]);
}

#[test]
fn a_text_without_errors_is_a_policy() {
    let exprs = vec![Expression::Other(3), Expression::Decl(Declaration::Other(4))];
    let output = ParserOutput { recovered: vec![], result: Ok(Policy::new(exprs)) };
    let policy = parse_policy(output).unwrap();
    assert_eq!(policy.exprs.len(), 2);
    assert!(matches!(policy.exprs[0], Expression::Other(3)));
    assert!(matches!(policy.exprs[1], Expression::Decl(Declaration::Other(4))));
}

#[test]
fn syntax_errors_have_headlines() {
    let token = |t: &str| t.to_string();
    let unrecognized =
        SyntaxError::UnrecognizedToken { start: 1, token: token("."), end: 2, expected: vec![] };
    assert_eq!(unrecognized.message(), "Unexpected character \".\"");
    let extra = SyntaxError::ExtraToken { start: 1, token: token("}"), end: 2 };
    assert_eq!(extra.message(), "Unexpected character \"}\"");
    assert_eq!(invalid_token(0).message(), "Unknown character");
    let eof = SyntaxError::UnrecognizedEOF { location: 5, expected: vec![] };
    assert_eq!(eof.message(), "Unexpected end of file");
    let user = SyntaxError::User { error: ParseErrorMsg { message: token("Bad name") } };
    assert_eq!(user.message(), "Bad name");
}

#[test]
fn a_loaded_file_keeps_its_name_and_text() {
    let content = text("domain foo {}", vec![Expression::Other(1)]);
    let loaded = load_policy("foo.cas".to_string(), content).unwrap();
    assert_eq!(loaded.name(), "foo.cas");
    assert_eq!(loaded.source(), "domain foo {}");
    assert_eq!(loaded.policy.exprs.len(), 1);

    let made = PolicyFile::new(Policy::new(vec![]), "n".to_string(), "s".to_string());
    assert_eq!((made.name().as_str(), made.source().as_str()), ("n", "s"));
}

#[test]
fn errors_of_a_file_name_the_file() {
    let unreadable = FileContent::Unreadable(IOError { message: "No such file".to_string() });
    let errors = load_policy("x.cas".to_string(), unreadable).unwrap_err();
    assert_eq!(shown(errors), vec!["io: No such file"]);

    let content = FileContent::Text {
        source: "???".to_string(),
        parsed: ParserOutput { recovered: vec![recovery(1)], result: Err(invalid_token(2)) },
    };
    let errors = load_policy("y.cas".to_string(), content).unwrap_err();
    let items = errors.into_items();
    assert_eq!(items.len(), 2);
    for (item, place) in items.iter().zip([2, 1]) {
        match item {
            ErrorItem::Parse(e) => {
                assert_eq!(e.file_name, "y.cas");
                assert_eq!(e.policy, "???");
                assert!(matches!(e.error, SyntaxError::InvalidToken { location } if location == place));
            }
            _ => panic!("not a parse error"),
        }
    }
}

#[test]
fn every_file_is_read_before_errors_are_reported() {
    let files = vec!["a.cas", "b.cas", "c.cas"];
    let mut replies = Replies::new();
    match asked(compile_combined(files.clone(), &replies)) {
        Request::ReadPolicy { position: 0, file } => assert_eq!(file, "a.cas"),
        other => panic!("asks for {:?}", other),
    }
    let message = "denied".to_string();
    let content = FileContent::Unreadable(IOError { message });
    replies.record(Reply::ReadPolicy { file: "a.cas".to_string(), content });
    match asked(compile_system_policies_all(files.clone(), &replies)) {
        Request::ReadPolicy { position: 1, file } => assert_eq!(file, "b.cas"),
        other => panic!("asks for {:?}", other),
    }
    replies.record(Reply::ReadPolicy { file: "b.cas".to_string(), content: text("", vec![]) });
    let content = FileContent::Text {
        source: "#".to_string(),
        parsed: ParserOutput { recovered: vec![], result: Err(invalid_token(0)) },
    };
    replies.record(Reply::ReadPolicy { file: "c.cas".to_string(), content });
    let expected = vec!["io: denied", "parse: c.cas: Unknown character"];
    assert_eq!(failure(compile_combined(files.clone(), &replies)), expected);
    assert_eq!(failure(compile_system_policies(files.clone(), vec![], &replies)), expected);
    assert_eq!(failure(compile_system_policies_all(files, &replies)), expected);
}

#[test]
fn policies_come_in_the_order_of_the_files() {
    let replies = two_files();
    let policies = success(get_policies(&vec!["a.cas", "b.cas"], &replies));
    assert_eq!(policies.len(), 2);
    assert_eq!(policies.get(0).name(), "a.cas");
    assert_eq!(policies.get(1).name(), "b.cas");
}

#[test]
fn steps_are_asked_for_in_order() {
    let mut replies = Replies::new();
    let mut log: Vec<String> = Vec::new();
    let text_of = loop {
        match compile_combined(vec!["a.cas"], &replies) {
            Step::Done(result) => break result.unwrap(),
            Step::Ask(request) => {
                log.push(format!("{:?}", request));
                let reply = match request {
                    Request::ReadPolicy { file, .. } => {
                        Reply::ReadPolicy { file, content: text("", vec![]) }
                    }
                    Request::BuiltInTypes => Reply::BuiltInTypes(Ok(())),
                    Request::ExtendTypeMap(_) => Reply::ExtendTypeMap(Ok(())),
                    Request::GlobalBindings(_) => Reply::GlobalBindings(Ok(())),
                    Request::TypeAliases => Reply::TypeAliases,
                    Request::VerifyExtends(_) => Reply::VerifyExtends(Ok(())),
                    Request::BuildFuncMap(_) => Reply::BuildFuncMap(Ok(())),
                    Request::AssociateAnnotations => {
                        Reply::AssociateAnnotations(Ok(vec![Expression::Other(0)]))
                    }
                    Request::ExtendAssociated => Reply::ExtendAssociated(Ok(())),
                    Request::ValidateModules(_) => Reply::ValidateModules(Ok(())),
                    Request::ModuleAliases => Reply::ModuleAliases,
                    Request::ValidateSystems(_) => Reply::ValidateSystems(Ok(vec![])),
                    Request::DefaultModule(_) => Reply::DefaultModule(Ok(())),
                    Request::TypeNames => Reply::TypeNames(strings(&["foo", "bar", "foo"])),
                    Request::InsertSystem(s) => Reply::InsertSystem(Ok(vec![s.name])),
                    Request::ReducedInfos { .. } => {
                        Reply::ReducedInfos(Ok(vec![list(&["handleunknown", "allow"])]))
                    }
                };
                replies.record(reply);
            }
        }
    };
    assert_eq!(text_of, "(handleunknown allow)");
    assert_eq!(
        log,
        vec![
            "ReadPolicy { position: 0, file: \"a.cas\" }",
            "BuiltInTypes",
            "ExtendTypeMap(0)",
            "GlobalBindings(0)",
            "TypeAliases",
            "VerifyExtends(0)",
            "BuildFuncMap(0)",
            "AssociateAnnotations",
            "ExtendAssociated",
            "ValidateModules(2)",
            "ModuleAliases",
            "ValidateSystems(2)",
            "DefaultModule(ValidatedModule { name: \"module\", types: [] })",
            "TypeNames",
            "InsertSystem(DefaultSystem { name: \"out\", module: ValidatedModule { name: \"module\", types: [\"foo\", \"bar\"] }, handle_unknown_perms: \"allow\" })",
            "ReducedInfos { position: 0, system: \"out\", policies: 2 }",
        ]
    );
}

#[test]
fn a_step_reports_the_errors_of_all_policies_and_stops() {
    let mut replies = Replies::new();
    for file in ["a.cas", "b.cas"] {
        replies.record(Reply::ReadPolicy { file: file.to_string(), content: text("", vec![]) });
    }
    replies.record(Reply::BuiltInTypes(Ok(())));
    replies.record(Reply::ExtendTypeMap(Err(one_error("first"))));
    assert!(matches!(asked(systems(&["one"], &replies)), Request::ExtendTypeMap(1)));
    replies.record(Reply::ExtendTypeMap(Err(one_error("second"))));
    let expected = vec!["compile: first", "compile: second"];
    assert_eq!(failure(systems(&["one"], &replies)), expected);

    // Answers that were not asked for change nothing.
    replies.record(Reply::GlobalBindings(Err(one_error("third"))));
    replies.record(Reply::ValidateModules(Err(one_error("fourth"))));
    assert_eq!(failure(systems(&["one"], &replies)), expected);
}

#[test]
fn each_step_can_fail() {
    let fail = |reply: Reply| {
        let mut replies = two_files();
        match reply {
            Reply::BuiltInTypes(_) => replies.built_in_types = None,
            Reply::GlobalBindings(_) => {
                replies.global_bindings.pop();
            }
            Reply::VerifyExtends(_) => {
                replies.extends.pop();
            }
            Reply::ExtendAssociated(_) => replies.associated_type_map = None,
            Reply::ValidateModules(_) => replies.modules = None,
            Reply::ValidateSystems(_) => replies.systems = None,
            _ => {}
        }
        replies.record(reply);
        failure(systems(&["one"], &replies))
    };
    let e = || Err(one_error("bad"));
    assert_eq!(fail(Reply::BuiltInTypes(e())), vec!["compile: bad"]);
    assert_eq!(fail(Reply::GlobalBindings(e())), vec!["compile: bad"]);
    assert_eq!(fail(Reply::VerifyExtends(e())), vec!["compile: bad"]);
    assert_eq!(fail(Reply::ExtendAssociated(e())), vec!["compile: bad"]);
    assert_eq!(fail(Reply::ValidateModules(e())), vec!["compile: bad"]);
    assert_eq!(fail(Reply::ValidateSystems(Err(one_error("bad")))), vec!["compile: bad"]);
    assert_eq!(fail(Reply::ReducedInfos(Err(one_error("bad")))), vec!["compile: bad"]);
}

#[test]
fn function_errors_and_annotation_errors_are_reported_together() {
    let mut replies = two_files();
    replies.func_maps.clear();
    replies.record(Reply::BuildFuncMap(Err(one_error("function"))));
    replies.record(Reply::BuildFuncMap(Ok(())));
    assert_eq!(failure(systems(&["one"], &replies)), vec!["compile: function"]);
    replies.record(Reply::AssociateAnnotations(Err(one_error("annotation"))));
    assert_eq!(
        failure(systems(&["one"], &replies)),
        vec!["compile: function", "compile: annotation"]
    );
}

#[test]
fn annotations_give_rise_to_a_policy_without_a_file() {
    let replies = two_files();
    match &replies.associated {
        Some(Ok(p)) => {
            assert_eq!(p.name(), "");
            assert_eq!(p.source(), "");
            assert!(matches!(p.policy.exprs[0], Expression::Other(7)));
        }
        _ => panic!("no policy"),
    }
    match asked(systems(&["two"], &replies)) {
        Request::ReducedInfos { position, system, policies } => {
            assert_eq!((position, system.as_str(), policies), (0, "two", 3));
        }
        other => panic!("asks for {:?}", other),
    }
}

#[test]
fn unknown_systems_are_reported_by_name() {
    let replies = two_files();
    assert_eq!(
        failure(systems(&["three", "four"], &replies)),
        vec![
            "system: System three does not exist.\nThe valid systems are one, two",
            "system: System four does not exist.\nThe valid systems are one, two",
        ]
    );
}

#[test]
fn known_systems_are_reduced_though_others_are_unknown() {
    let mut replies = two_files();
    let names = ["three", "one", "two"];
    match asked(systems(&names, &replies)) {
        Request::ReducedInfos { position, system, .. } => {
            assert_eq!((position, system.as_str()), (1, "one"));
        }
        other => panic!("asks for {:?}", other),
    }
    replies.record(Reply::ReducedInfos(Ok(vec![])));
    match asked(systems(&names, &replies)) {
        Request::ReducedInfos { position, system, .. } => {
            assert_eq!((position, system.as_str()), (2, "two"));
        }
        other => panic!("asks for {:?}", other),
    }
    let mut failed = two_files();
    failed.record(Reply::ReducedInfos(Err(one_error("bad rule"))));
    assert_eq!(failure(systems(&names, &failed)), vec!["compile: bad rule"]);

    replies.record(Reply::ReducedInfos(Ok(vec![])));
    assert_eq!(
        failure(systems(&names, &replies)),
        vec!["system: System three does not exist.\nThe valid systems are one, two"]
    );
}

#[test]
fn each_named_system_has_its_own_policy() {
    let mut replies = two_files();
    replies.record(Reply::ReducedInfos(Ok(vec![list(&["type", "b"])])));
    replies.record(Reply::ReducedInfos(Ok(vec![list(&["type", "a"]), list(&["type", "c"])])));
    let compiled = success(systems(&["two", "one"], &replies));
    assert_eq!(compiled.len(), 2);
    assert_eq!(compiled.get("two").unwrap(), "(type b)");
    assert_eq!(compiled.get("one").unwrap(), "(type a)\n(type c)");
    assert!(compiled.get("three").is_none());
    let mut names = compiled.names().clone();
    names.sort();
    assert_eq!(names, vec!["one", "two"]);
}

#[test]
fn a_name_given_twice_has_the_policy_of_its_last_place() {
    let mut replies = two_files();
    replies.record(Reply::ReducedInfos(Ok(vec![atom("first")])));
    replies.record(Reply::ReducedInfos(Ok(vec![atom("second")])));
    let compiled = success(systems(&["one", "one"], &replies));
    assert_eq!(compiled.len(), 1);
    assert_eq!(compiled.names().len(), 1);
    assert_eq!(compiled.get("one").unwrap(), "second");
}

#[test]
fn no_systems_is_no_error() {
    let compiled = success(systems(&[], &two_files()));
    assert_eq!(compiled.len(), 0);
}

#[test]
fn all_systems_are_those_that_are_declared() {
    let system =
        |n: &str| Expression::Decl(Declaration::System(System { name: n.to_string() }));
    let mut replies = two_files();
    replies.files.clear();
    let first = vec![system("two"), Expression::Other(1), Expression::Decl(Declaration::Other(2))];
    replies.record(Reply::ReadPolicy { file: "a.cas".to_string(), content: text("", first) });
    let second = vec![Expression::Other(3), system("one")];
    replies.record(Reply::ReadPolicy { file: "b.cas".to_string(), content: text("", second) });
    replies.record(Reply::ReducedInfos(Ok(vec![atom("b")])));
    replies.record(Reply::ReducedInfos(Ok(vec![atom("a")])));
    let all = success(compile_system_policies_all(vec!["a.cas", "b.cas"], &replies));
    let named = success(systems(&["two", "one"], &replies));
    for compiled in [all, named] {
        assert_eq!(compiled.len(), 2);
        assert_eq!(compiled.get("two").unwrap(), "b");
        assert_eq!(compiled.get("one").unwrap(), "a");
    }
}

#[test]
fn the_combined_policy_is_that_of_its_own_system() {
    let files = vec!["a.cas", "b.cas"];
    let mut replies = two_files();
    assert!(matches!(asked(compile_combined(files.clone(), &replies)), Request::DefaultModule(_)));
    replies.record(Reply::DefaultModule(Ok(())));
    replies.record(Reply::TypeNames(strings(&["domain"])));
    replies.record(Reply::InsertSystem(Ok(strings(&["one", "out", "two"]))));
    replies.record(Reply::ReducedInfos(Ok(vec![list(&["type", "x"])])));
    assert_eq!(success(compile_combined(files, &replies)), "(type x)");
}

#[test]
fn the_default_system_can_fail() {
    let files = vec!["a.cas", "b.cas"];
    let mut replies = two_files();
    replies.record(Reply::DefaultModule(Err(one_error("ignored"))));
    assert_eq!(failure(compile_combined(files.clone(), &replies)), vec!["internal"]);

    let mut replies = two_files();
    replies.record(Reply::DefaultModule(Ok(())));
    replies.record(Reply::TypeNames(vec![]));
    replies.record(Reply::InsertSystem(Err(one_error("out is taken"))));
    assert_eq!(failure(compile_combined(files.clone(), &replies)), vec!["compile: out is taken"]);

    let mut replies = two_files();
    replies.record(Reply::DefaultModule(Ok(())));
    replies.record(Reply::TypeNames(vec![]));
    replies.record(Reply::InsertSystem(Ok(strings(&["one"]))));
    assert_eq!(
        failure(compile_combined(files, &replies)),
        vec!["system: System out does not exist.\nThe valid systems are one"]
    );
}

#[test]
fn policies_can_be_handed_over_directly() {
    let replies = two_files();
    let mut policies = Policies::new();
    for file in &replies.files {
        policies.push(file.as_ref().unwrap());
    }
    let step = compile_system_policies_internal(policies, strings(&["one"]), true, &replies);
    assert!(matches!(asked(step), Request::DefaultModule(_)));
}

/// Answers every request for the two files until the compilation ends. For each system the
/// policies are reduced to its name.
fn reduced_to_names(
    replies: &mut Replies,
    next: &dyn Fn(&Replies) -> Step<CompiledSystems>,
) -> CompiledSystems {
    loop {
        let reply = match next(replies) {
            Step::Done(result) => return result.unwrap(),
            Step::Ask(Request::DefaultModule(_)) => Reply::DefaultModule(Ok(())),
            Step::Ask(Request::TypeNames) => Reply::TypeNames(strings(&["domain"])),
            Step::Ask(Request::InsertSystem(s)) => {
                Reply::InsertSystem(Ok(vec![s.name, "one".to_string(), "two".to_string()]))
            }
            Step::Ask(Request::ReducedInfos { system, .. }) => {
                Reply::ReducedInfos(Ok(vec![atom(&system)]))
            }
            Step::Ask(other) => panic!("asks for {:?}", other),
        };
        replies.record(reply);
    }
}

fn internal(names: &[&str], default: bool, replies: &Replies) -> Step<CompiledSystems> {
    let mut policies = Policies::new();
    for file in &replies.files {
        policies.push(file.as_ref().unwrap());
    }
    compile_system_policies_internal(policies, strings(names), default, replies)
}

#[test]
fn the_list_of_names_picks_systems_and_changes_none() {
    let all = reduced_to_names(&mut two_files(), &|r| systems(&["one", "two"], r));
    assert_eq!(all.len(), 2);
    let alone = reduced_to_names(&mut two_files(), &|r| systems(&["two"], r));
    assert_eq!(alone.len(), 1);
    assert_eq!(alone.get("two"), all.get("two"));
    assert_eq!(alone.get("two").unwrap(), "two");
    let mixed = reduced_to_names(&mut two_files(), &|r| systems(&["two", "one", "two"], r));
    assert_eq!(mixed.len(), 2);
    assert_eq!(mixed.get("one"), all.get("one"));
    assert_eq!(mixed.get("two"), all.get("two"));
}

#[test]
fn the_default_system_changes_no_other() {
    let without = reduced_to_names(&mut two_files(), &|r| internal(&["one"], false, r));
    let with = reduced_to_names(&mut two_files(), &|r| internal(&["all", "one"], true, r));
    assert_eq!(with.len(), 2);
    assert_eq!(with.get("one"), without.get("one"));
    assert_eq!(with.get("all").unwrap(), "all");
    assert!(without.get("all").is_none());
}

#[test]
fn the_first_name_is_that_of_the_default_system() {
    let mut replies = two_files();
    replies.record(Reply::DefaultModule(Ok(())));
    replies.record(Reply::TypeNames(strings(&["domain"])));
    match asked(internal(&["one", "other"], true, &replies)) {
        Request::InsertSystem(system) => assert_eq!(system.name, "one"),
        other => panic!("asks for {:?}", other),
    }
}

#[test]
fn a_failing_stage_ends_the_compilation_whatever_the_names() {
    let mut replies = two_files();
    replies.modules = None;
    replies.record(Reply::ValidateModules(Err(one_error("bad module"))));
    assert_eq!(failure(internal(&[], true, &replies)), vec!["compile: bad module"]);
    assert_eq!(failure(internal(&["three"], false, &replies)), vec!["compile: bad module"]);
    assert_eq!(failure(internal(&["three", "one"], true, &replies)), vec!["compile: bad module"]);

    // Before the default system is made, a list without a name is as good as any.
    assert!(matches!(asked(internal(&[], true, &two_files())), Request::DefaultModule(_)));
}

#[test]
fn all_systems_that_fail_are_not_called_unknown() {
    let system = Expression::Decl(Declaration::System(System { name: "one".to_string() }));
    let mut replies = two_files();
    replies.files.clear();
    replies.record(Reply::ReadPolicy {
        file: "a.cas".to_string(),
        content: text("", vec![system]),
    });
    replies.record(Reply::ReadPolicy { file: "b.cas".to_string(), content: text("", vec![]) });
    replies.record(Reply::ReducedInfos(Err(one_error("bad rule"))));
    assert_eq!(
        failure(compile_system_policies_all(vec!["a.cas", "b.cas"], &replies)),
        vec!["compile: bad rule"]
    );
}

#[test]
fn policies_are_numbered_by_file_with_that_of_the_annotations_last() {
    let mut replies = two_files();
    let policies = replies.policies();
    assert_eq!(policies.len(), 3);
    assert_eq!(policies.get(0).name(), "a.cas");
    assert_eq!(policies.get(1).name(), "b.cas");
    assert!(matches!(policies.get(2).policy.exprs[0], Expression::Other(7)));

    replies.record(Reply::AssociateAnnotations(Err(one_error("annotation"))));
    assert_eq!(replies.policies().len(), 2);
    let unreadable = FileContent::Unreadable(IOError { message: "denied".to_string() });
    replies.record(Reply::ReadPolicy { file: "c.cas".to_string(), content: unreadable });
    assert_eq!(replies.policies().len(), 2);
    assert_eq!(Replies::new().policies().len(), 0);
}

#[test]
fn errors_are_kept_in_order() {
    let mut errors = CascadeErrors::new();
    assert_eq!(errors.error_count(), 0);
    assert!(CascadeErrors::new().into_result(5).unwrap() == 5);
    assert!(CascadeErrors::new().into_result_self().is_ok());
    errors.append(one_error("a"));
    errors.append(CascadeErrors::from(InternalError::new()));
    errors.append(CascadeErrors::from(InvalidSystemError::new("b".to_string())));
    assert_eq!(errors.error_count(), 3);
    let copy = errors.clone();
    let back = errors.into_result(()).unwrap_err();
    assert_eq!(shown(back), vec!["compile: a", "internal", "system: b"]);
    let back = copy.into_result_self().unwrap_err();
    assert_eq!(shown(back), vec!["compile: a", "internal", "system: b"]);
}
