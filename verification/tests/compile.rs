use cascade::ast::{Declaration, Expression, Policy, System};
use cascade::dialogue::{CompiledSystems, Replies, Reply, Request, Step};
use cascade::error::{CascadeErrors, CompileError, ErrorItem};
use cascade::load::{FileContent, ParserOutput};
use cascade::sexp::Sexp;
use cascade::syntax::SyntaxError;

const POLICIES_DIR: &str = "data/policies/";
const ERROR_POLICIES_DIR: &str = "data/error_policies/";

/// Runs a compilation. `stages` answers the requests that matter, every other step goes well.
fn run<T>(
    next: &dyn Fn(&Replies) -> Step<T>,
    stages: &dyn Fn(&Request) -> Option<Reply>,
) -> Result<T, CascadeErrors> {
    let mut replies = Replies::new();
    loop {
        match next(&replies) {
            Step::Done(result) => return result,
            Step::Ask(request) => {
                let reply = match stages(&request) {
                    Some(reply) => reply,
                    None => all_well(&request),
                };
                replies.record(reply);
            }
        }
    }
}

fn all_well(request: &Request) -> Reply {
    match request {
        Request::ReadPolicy { file, .. } => Reply::ReadPolicy {
            file: file.clone(),
            content: parsed("", Vec::new()),
        },
        Request::BuiltInTypes => Reply::BuiltInTypes(Ok(())),
        Request::ExtendTypeMap(_) => Reply::ExtendTypeMap(Ok(())),
        Request::GlobalBindings(_) => Reply::GlobalBindings(Ok(())),
        Request::TypeAliases => Reply::TypeAliases,
        Request::VerifyExtends(_) => Reply::VerifyExtends(Ok(())),
        Request::BuildFuncMap(_) => Reply::BuildFuncMap(Ok(())),
        Request::AssociateAnnotations => Reply::AssociateAnnotations(Ok(Vec::new())),
        Request::ExtendAssociated => Reply::ExtendAssociated(Ok(())),
        Request::ValidateModules(_) => Reply::ValidateModules(Ok(())),
        Request::ModuleAliases => Reply::ModuleAliases,
        Request::ValidateSystems(_) => Reply::ValidateSystems(Ok(Vec::new())),
        Request::DefaultModule(_) => Reply::DefaultModule(Ok(())),
        Request::TypeNames => {
            Reply::TypeNames(vec!["domain".to_string(), "resource".to_string()])
        }
        Request::InsertSystem(system) => Reply::InsertSystem(Ok(vec![system.name.clone()])),
        Request::ReducedInfos { .. } => Reply::ReducedInfos(Ok(Vec::new())),
    }
}

fn parsed(source: &str, exprs: Vec<Expression>) -> FileContent {
    FileContent::Text {
        source: source.to_string(),
        parsed: ParserOutput { recovered: Vec::new(), result: Ok(Policy::new(exprs)) },
    }
}

fn rejected(source: &str, error: SyntaxError) -> FileContent {
    FileContent::Text {
        source: source.to_string(),
        parsed: ParserOutput { recovered: Vec::new(), result: Err(error) },
    }
}

fn system_decl(name: &str) -> Expression {
    Expression::Decl(Declaration::System(System { name: name.to_string() }))
}

fn compile_errors(count: usize) -> CascadeErrors {
    let mut errors = CascadeErrors::new();
    for i in 0..count {
        errors.add_error(ErrorItem::Compile(CompileError { message: format!("error {}", i) }));
    }
    errors
}

/// The s-expressions that are written in `text`.
fn sexps(text: &str) -> Vec<Sexp> {
    let mut open: Vec<Vec<Sexp>> = vec![Vec::new()];
    let mut word = String::new();
    for c in text.chars() {
        if c == '(' || c == ')' || c == ' ' || c == '\n' {
            if !word.is_empty() {
                open.last_mut().unwrap().push(Sexp::Atom(word.clone()));
                word.clear();
            }
        } else {
            word.push(c);
        }
        if c == '(' {
            open.push(Vec::new());
        }
        if c == ')' {
            let items = open.pop().unwrap();
            open.last_mut().unwrap().push(Sexp::List(items));
        }
    }
    open.pop().unwrap()
}

fn combined(
    files: &[String],
    stages: &dyn Fn(&Request) -> Option<Reply>,
) -> Result<String, CascadeErrors> {
    run(
        &|replies| cascade::compile_combined(files.iter().map(|f| f.as_str()).collect(), replies),
        stages,
    )
}

fn system_policies(
    files: &[String],
    system_names: &[String],
    stages: &dyn Fn(&Request) -> Option<Reply>,
) -> Result<CompiledSystems, CascadeErrors> {
    run(
        &|replies| {
            cascade::compile_system_policies(
                files.iter().map(|f| f.as_str()).collect(),
                system_names.to_vec(),
                replies,
            )
        },
        stages,
    )
}

fn system_policies_all(
    files: &[String],
    stages: &dyn Fn(&Request) -> Option<Reply>,
) -> Result<CompiledSystems, CascadeErrors> {
    run(
        &|replies| {
            cascade::compile_system_policies_all(
                files.iter().map(|f| f.as_str()).collect(),
                replies,
            )
        },
        stages,
    )
}

fn error_policy_test(
    filename: &str,
    expected_error_count: usize,
    stages: &dyn Fn(&Request) -> Option<Reply>,
    expected: &dyn Fn(&ErrorItem) -> bool,
) {
    let policy_file = [ERROR_POLICIES_DIR, filename].concat();
    match combined(&[policy_file], stages) {
        Ok(_) => panic!("{} compiled successfully", filename),
        Err(e) => {
            assert_eq!(e.error_count(), expected_error_count);
            for error in e.into_items() {
                assert!(expected(&error));
            }
        }
    }
}

fn is_compile(error: &ErrorItem) -> bool {
    matches!(error, ErrorItem::Compile(_))
}

#[test]
fn makelist_test() {
    let policy_file = [POLICIES_DIR, "makelist.cas"].concat();

    match combined(&[policy_file], &|_| None) {
        Ok(p) => assert_eq!(p, ""),
        Err(e) => panic!("Makelist compilation failed with {:?}", e),
    }
}

#[test]
fn multifiles_test() {
    let policy_files =
        vec![[POLICIES_DIR, "multifile1.cas"].concat(), [POLICIES_DIR, "multifile2.cas"].concat()];
    let mut policy_files_reversed = policy_files.clone();
    policy_files_reversed.reverse();

    for files in [policy_files, policy_files_reversed] {
        let stages = |request: &Request| match request {
            Request::ReducedInfos { policies, .. } => {
                assert_eq!(*policies, 3);
                Some(Reply::ReducedInfos(Ok(sexps("(type foo)\n(call foo-read (foo bar))"))))
            }
            _ => None,
        };
        match combined(&files, &stages) {
            Ok(p) => {
                assert!(p.contains("(call foo-read"));
            }
            Err(e) => panic!("Multi file compilation failed with {:?}", e),
        }
    }
}

const FOO: &str = "(handleunknown reject)
(type qux)
(type thud)
(type babble)
(type xyzzy)
(type baz)
(type quuz)
(typeattributeset quux (qux))
(typeattributeset domain (xyzzy))
(typeattributeset domain (baz))
(typeattributeset domain (quuz))
(macro qux-read ((type this) (type source)) (allow source qux (file (read))))
(allow thud babble (file (read)))
(allow thud babble (file (write)))";

const BAR: &str = "(handleunknown deny)
(type qux)
(type baz)
(type quuz)
(typeattributeset domain (baz))
(typeattributeset domain (quuz))
(typeattributeset quux (qux))
(macro qux-read ((type this) (type source)) (allow source qux (file (read))))";

const LAST: &str = "(handleunknown allow)
(type unused)
(typeattributeset resource (unused))";

fn system_building_files() -> Vec<String> {
    vec![
        [POLICIES_DIR, "system_building1.cas"].concat(),
        [POLICIES_DIR, "system_building2.cas"].concat(),
        [POLICIES_DIR, "system_building3.cas"].concat(),
    ]
}

/// Three files, with the systems `foo` and `bar` in the second and `corge` in the third.
fn system_building(request: &Request) -> Option<Reply> {
    match request {
        Request::ReadPolicy { position, file } => {
            let exprs = match position {
                0 => vec![Expression::Decl(Declaration::Other(0)), Expression::Other(1)],
                1 => vec![system_decl("foo"), Expression::Other(0), system_decl("bar")],
                _ => vec![Expression::Decl(Declaration::Other(0)), system_decl("corge")],
            };
            let content = parsed("", exprs);
            Some(Reply::ReadPolicy { file: file.clone(), content })
        }
        Request::ValidateSystems(_) => Some(Reply::ValidateSystems(Ok(vec![
            "bar".to_string(),
            "corge".to_string(),
            "foo".to_string(),
        ]))),
        Request::ReducedInfos { system, .. } => {
            let text = match system.as_str() {
                "foo" => FOO,
                "bar" => BAR,
                "corge" => LAST,
                _ => panic!("no such system"),
            };
            Some(Reply::ReducedInfos(Ok(sexps(text))))
        }
        _ => None,
    }
}

#[test]
fn compile_system_policies_test() {
    let policy_files = system_building_files();
    let system_names = vec!["foo".to_string(), "bar".to_string()];

    let res = system_policies(&policy_files, &system_names, &system_building);
    match res {
        Ok(hashmap) => {
            assert_eq!(hashmap.len(), 2);
            for system_name in &system_names {
                let system_cil = hashmap.get(system_name).unwrap();
                if system_name == "foo" {
                    assert!(system_cil.contains("(handleunknown reject)"));
                    assert!(system_cil.contains("(allow thud babble (file (read)))"));
                    assert!(system_cil.contains("(allow thud babble (file (write)))"));
                    assert!(system_cil.contains("(typeattributeset quux (qux))"));
                    assert!(system_cil.contains("(macro qux-read ((type this) (type source)) (allow source qux (file (read))))"));
                    assert!(system_cil.contains("(typeattributeset domain (xyzzy))"));
                    assert!(system_cil.contains("(typeattributeset domain (baz))"));
                    assert!(system_cil.contains("(typeattributeset domain (quuz))"));

                    assert!(!system_cil.contains("(type unused)"));
                } else {
                    assert!(system_cil.contains("(handleunknown deny)"));
                    assert!(system_cil.contains("(typeattributeset domain (baz))"));
                    assert!(system_cil.contains("(typeattributeset domain (quuz))"));
                    assert!(system_cil.contains("(typeattributeset quux (qux))"));
                    assert!(system_cil.contains("(macro qux-read ((type this) (type source)) (allow source qux (file (read))))"));

                    assert!(!system_cil.contains("(type thud)"));
                    assert!(!system_cil.contains("(type babble)"));
                    assert!(!system_cil.contains("(type xyzzy)"));
                    assert!(!system_cil.contains("(type unused)"));
                }
            }
        }
        Err(e) => panic!("System building compilation failed with {:?}", e),
    }
}

#[test]
fn compile_system_policies_all_test() {
    let policy_files = system_building_files();

    let res = system_policies_all(&policy_files, &system_building);
    match res {
        Ok(hashmap) => {
            assert_eq!(hashmap.len(), 3);
            for system_name in ["foo", "bar", "corge"] {
                let system_cil = hashmap.get(system_name).unwrap();
                if system_name == "foo" {
                    assert!(system_cil.contains("(handleunknown reject)"));
                    assert!(system_cil.contains("(allow thud babble (file (read)))"));
                    assert!(system_cil.contains("(allow thud babble (file (write)))"));
                    assert!(system_cil.contains("(typeattributeset quux (qux))"));
                    assert!(system_cil.contains("(macro qux-read ((type this) (type source)) (allow source qux (file (read))))"));
                    assert!(system_cil.contains("(typeattributeset domain (xyzzy))"));
                    assert!(system_cil.contains("(typeattributeset domain (baz))"));
                    assert!(system_cil.contains("(typeattributeset domain (quuz))"));

                    assert!(!system_cil.contains("(type unused)"));
                } else if system_name == "bar" {
                    assert!(system_cil.contains("(handleunknown deny)"));
                    assert!(system_cil.contains("(typeattributeset domain (baz))"));
                    assert!(system_cil.contains("(typeattributeset domain (quuz))"));
                    assert!(system_cil.contains("(typeattributeset quux (qux))"));
                    assert!(system_cil.contains("(macro qux-read ((type this) (type source)) (allow source qux (file (read))))"));

                    assert!(!system_cil.contains("(type thud)"));
                    assert!(!system_cil.contains("(type babble)"));
                    assert!(!system_cil.contains("(type xyzzy)"));
                    assert!(!system_cil.contains("(type unused)"));
                } else {
                    assert!(system_cil.contains("(handleunknown allow)"));
                    assert!(system_cil.contains("(typeattributeset resource (unused))"));

                    assert!(!system_cil.contains("(type thud)"));
                    assert!(!system_cil.contains("(type babble)"));
                    assert!(!system_cil.contains("(type xyzzy)"));
                    assert!(!system_cil.contains("(type baz)"));
                    assert!(!system_cil.contains("(type quuz)"));
                    assert!(!system_cil.contains("(type qux)"));
                }
            }
        }
        Err(e) => panic!("System building compilation failed with {:?}", e),
    }
}

#[test]
fn cycle_error_test() {
    let stages = |request: &Request| match request {
        Request::ExtendTypeMap(_) => Some(Reply::ExtendTypeMap(Err(compile_errors(2)))),
        _ => None,
    };
    error_policy_test("cycle.cas", 2, &stages, &is_compile);
}

#[test]
fn bad_type_error_test() {
    let stages = |request: &Request| match request {
        Request::ExtendTypeMap(_) => Some(Reply::ExtendTypeMap(Err(compile_errors(1)))),
        _ => None,
    };
    error_policy_test("nonexistent_inheritance.cas", 1, &stages, &is_compile);
}

#[test]
fn bad_allow_rules_test() {
    let stages = |request: &Request| match request {
        Request::ReducedInfos { .. } => Some(Reply::ReducedInfos(Err(compile_errors(3)))),
        _ => None,
    };
    error_policy_test("bad_allow.cas", 3, &stages, &is_compile);
}

#[test]
fn non_virtual_inherit_test() {
    let stages = |request: &Request| match request {
        Request::ExtendTypeMap(_) => Some(Reply::ExtendTypeMap(Err(compile_errors(1)))),
        _ => None,
    };
    error_policy_test("non_virtual_inherit.cas", 1, &stages, &is_compile);
}

#[test]
fn bad_alias_test() {
    let stages = |request: &Request| match request {
        Request::GlobalBindings(_) => Some(Reply::GlobalBindings(Err(compile_errors(2)))),
        _ => None,
    };
    error_policy_test("alias.cas", 2, &stages, &is_compile);
}

fn reduction_fails(message: &str) -> Box<dyn Fn(&Request) -> Option<Reply>> {
    let message = message.to_string();
    Box::new(move |request: &Request| match request {
        Request::ReducedInfos { .. } => {
            let mut errors = CascadeErrors::new();
            errors.add_error(ErrorItem::Compile(CompileError { message: message.clone() }));
            Some(Reply::ReducedInfos(Err(errors)))
        }
        _ => None,
    })
}

#[test]
fn unsupplied_arg_test() {
    let stages = reduction_fails("Function foo.read expected 2 arguments, got 1");
    error_policy_test("unsupplied_arg.cas", 1, &*stages, &|e| {
        matches!(e, ErrorItem::Compile(CompileError { message: msg })
            if msg == "Function foo.read expected 2 arguments, got 1")
    });
}

#[test]
fn virtual_function_error_test() {
    let stages = reduction_fails("foo does not define a function named foo_func");
    error_policy_test("virtual_function_non_define.cas", 1, &*stages, &|e| {
        matches!(e, ErrorItem::Compile(CompileError { message: msg })
            if msg.contains("foo does not define a function named foo_func"))
    });

    let stages = reduction_fails("illegal call");
    error_policy_test("virtual_function_illegal_call.cas", 1, &*stages, &is_compile);
}

#[test]
fn domain_filecon_test() {
    let stages = reduction_fails("file_context() calls are only allowed in resources");
    error_policy_test("domain_filecon.cas", 1, &*stages, &|e| {
        matches!(e, ErrorItem::Compile(CompileError { message: msg })
            if msg.contains("file_context() calls are only allowed in resources"))
    });
}

fn parse_error_message(error: &ErrorItem) -> String {
    match error {
        ErrorItem::Parse(e) => e.message(),
        _ => panic!("not a parse error"),
    }
}

fn rejecting(error: SyntaxError) -> Box<dyn Fn(&Request) -> Option<Reply>> {
    Box::new(move |request: &Request| match request {
        Request::ReadPolicy { file, .. } => Some(Reply::ReadPolicy {
            file: file.clone(),
            content: rejected("domain foo", error.clone()),
        }),
        _ => None,
    })
}

#[test]
fn parsing_unrecognized_token() {
    let error = SyntaxError::UnrecognizedToken {
        start: 11,
        token: ".".to_string(),
        end: 12,
        expected: vec!["\"{\"".to_string()],
    };
    error_policy_test("parse_unrecognized_token.cas", 1, &*rejecting(error), &|e| {
        parse_error_message(e) == *"Unexpected character \".\""
    });
}

#[test]
fn parsing_unknown_token() {
    let error = SyntaxError::InvalidToken { location: 11 };
    error_policy_test("parse_unknown_token.cas", 1, &*rejecting(error), &|e| {
        parse_error_message(e) == *"Unknown character"
    });
}

#[test]
fn parsing_unexpected_eof() {
    let error =
        SyntaxError::UnrecognizedEOF { location: 10, expected: vec!["\"{\"".to_string()] };
    error_policy_test("parse_unexpected_eof.cas", 1, &*rejecting(error), &|e| {
        parse_error_message(e) == *"Unexpected end of file"
    });
}

#[test]
fn virtual_function_associate_error() {
    let stages = |request: &Request| match request {
        Request::AssociateAnnotations => {
            Some(Reply::AssociateAnnotations(Err(compile_errors(1))))
        }
        _ => None,
    };
    error_policy_test("virtual_function_association.cas", 1, &stages, &is_compile);
}

fn modules_fail(count: usize) -> Box<dyn Fn(&Request) -> Option<Reply>> {
    Box::new(move |request: &Request| match request {
        Request::ValidateModules(_) => Some(Reply::ValidateModules(Err(compile_errors(count)))),
        _ => None,
    })
}

fn systems_fail(count: usize) -> Box<dyn Fn(&Request) -> Option<Reply>> {
    Box::new(move |request: &Request| match request {
        Request::ValidateSystems(_) => Some(Reply::ValidateSystems(Err(compile_errors(count)))),
        _ => None,
    })
}

fn extends_fail(count: usize) -> Box<dyn Fn(&Request) -> Option<Reply>> {
    Box::new(move |request: &Request| match request {
        Request::VerifyExtends(_) => Some(Reply::VerifyExtends(Err(compile_errors(count)))),
        _ => None,
    })
}

#[test]
fn invalid_module_error() {
    error_policy_test("module_invalid.cas", 3, &*modules_fail(3), &is_compile);
}

#[test]
fn module_cycle_error() {
    error_policy_test("module_cycle.cas", 1, &*modules_fail(1), &is_compile);
}

#[test]
fn invalid_system_error() {
    error_policy_test("system_invalid.cas", 5, &*systems_fail(5), &is_compile);
}

#[test]
fn system_invalid_module_error() {
    error_policy_test("system_invalid_module.cas", 1, &*systems_fail(1), &is_compile);
}

#[test]
fn system_missing_req_config_error() {
    error_policy_test("system_missing_req_config.cas", 1, &*systems_fail(1), &is_compile);
}

#[test]
fn system_multiple_config_error() {
    error_policy_test("system_multiple_config.cas", 1, &*systems_fail(1), &is_compile);
}

#[test]
fn system_no_modules_error() {
    error_policy_test("system_no_modules.cas", 1, &*systems_fail(1), &is_compile);
}

#[test]
fn system_virtual_error() {
    let error = SyntaxError::UnrecognizedToken {
        start: 8,
        token: "system".to_string(),
        end: 14,
        expected: vec!["\"domain\"".to_string(), "\"resource\"".to_string()],
    };
    error_policy_test("system_virtual.cas", 1, &*rejecting(error), &|e| {
        matches!(e, ErrorItem::Parse(_))
    });
}

#[test]
fn extend_without_declaration_error() {
    error_policy_test("extend_no_decl.cas", 1, &*extends_fail(1), &is_compile);
}

#[test]
fn extend_double_declaration_error() {
    error_policy_test("extend_double_decl.cas", 1, &*extends_fail(1), &is_compile);
}

#[test]
fn system_building_error() {
    let policy_files = system_building_files();
    let system_names = vec!["baz".to_string()];

    let res = system_policies(&policy_files, &system_names, &system_building);
    match res {
        Ok(_) => panic!("Compiled successfully"),
        Err(e) => {
            assert_eq!(e.error_count(), 1);
            for error in e.into_items() {
                assert!(matches!(error, ErrorItem::InvalidSystem(_)));
            }
        }
    }
}
