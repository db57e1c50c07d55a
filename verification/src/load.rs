//! From what was read of an input file to a policy, or to the errors in it.
use vstd::prelude::*;

use crate::ast::{simple_file_name, simple_file_source, Policy, PolicyFile};
use crate::error::{CascadeErrors, ErrorItem, ErrorItemView, IOError, ParseError};
use crate::syntax::{ErrorRecovery, SyntaxError, SyntaxErrorView};

verus! {

/// What the parser made of a text: the errors that it got over, the one found last first, and the
/// policy, or the error at which it gave up.
#[derive(Debug)]
pub struct ParserOutput {
    pub recovered: Vec<ErrorRecovery>,
    pub result: Result<Policy, SyntaxError>,
}

/// What was read of an input file.
#[derive(Debug)]
pub enum FileContent {
    /// The file could not be read.
    Unreadable(IOError),
    /// The text of the file, and what the parser made of it.
    Text { source: String, parsed: ParserOutput },
}

/// The syntax errors in a text: the one at which the parser gave up, then those that it got over,
/// in the reverse of the order in which it lists them.
pub open spec fn syntax_errors(parsed: ParserOutput) -> Seq<SyntaxErrorView> {
    let recovered = parsed.recovered@.map_values(|r: ErrorRecovery| r.error@).reverse();
    match parsed.result {
        Ok(_) => recovered,
        Err(e) => seq![e@] + recovered,
    }
}

/// The errors in an input file, in the order in which they are reported.
pub open spec fn file_errors(file: Seq<char>, content: FileContent) -> Seq<ErrorItemView> {
    match content {
        FileContent::Unreadable(e) => seq![ErrorItemView::IO { message: e.message@ }],
        FileContent::Text { source, parsed } => syntax_errors(parsed).map_values(
            |e: SyntaxErrorView|
                ErrorItemView::Parse { error: e, file_name: file, policy: source@ },
        ),
    }
}

/// What loading the file named `file` gives: its errors if it has any, else its policy, with the
/// name and the text of the file.
pub open spec fn loaded(
    file: Seq<char>,
    content: FileContent,
    result: Result<PolicyFile, CascadeErrors>,
) -> bool {
    match result {
        Ok(p) => {
            &&& file_errors(file, content).len() == 0
            &&& content matches FileContent::Text { source, parsed } && {
                &&& parsed.result matches Ok(policy) && p.policy.exprs@ == policy.exprs@
                &&& p.spec_name() == file
                &&& p.spec_source() == source@
            }
        },
        Err(e) => {
            &&& e@.len() > 0
            &&& e@ == file_errors(file, content)
        },
    }
}

/// A text has a syntax error exactly if the parser gave up or got over one, and as many as it
/// reports. The one at which it gave up comes first; the others follow from the last in the list
/// of the parser to the first.
pub proof fn lemma_no_syntax_error_is_lost(parsed: ParserOutput)
    ensures
        syntax_errors(parsed).len() == 0 <==> parsed.recovered@.len() == 0 && parsed.result is Ok,
        ({
            let errors = syntax_errors(parsed);
            let given_up: int = if parsed.result is Err {
                1
            } else {
                0
            };
            &&& errors.len() == parsed.recovered@.len() + given_up
            &&& parsed.result matches Err(e) ==> errors[0] == e@
            &&& forall|k: int|
                0 <= k < parsed.recovered@.len() ==> errors[#[trigger] (given_up + k)]
                    == parsed.recovered@[parsed.recovered@.len() - 1 - k].error@
        }),
{
}

/// What loading a file comes to. A file that cannot be read is one error, with what the system
/// said. A text is a policy exactly if the parser neither gave up nor got over an error; the policy
/// is the one that the parser found, under the name of the file and with its text. Otherwise there
/// is one error for each that the parser reports, and each names the file and holds its text.
pub proof fn lemma_loading_by_parser_output(
    file: Seq<char>,
    content: FileContent,
    result: Result<PolicyFile, CascadeErrors>,
)
    requires
        loaded(file, content, result),
    ensures
        match content {
            FileContent::Unreadable(e) => {
                &&& result is Err
                &&& result->Err_0@.len() == 1
                &&& result->Err_0@[0] == (ErrorItemView::IO { message: e.message@ })
            },
            FileContent::Text { source, parsed } => {
                &&& result is Ok <==> parsed.recovered@.len() == 0 && parsed.result is Ok
                &&& result matches Ok(p) ==> {
                    &&& p.policy.exprs@ == parsed.result->Ok_0.exprs@
                    &&& simple_file_name(p.file) == file
                    &&& simple_file_source(p.file) == source@
                }
                &&& result matches Err(errors) ==> {
                    let given_up: int = if parsed.result is Err {
                        1
                    } else {
                        0
                    };
                    &&& errors@.len() == parsed.recovered@.len() + given_up
                    &&& parsed.result matches Err(e) ==> errors@[0] == (ErrorItemView::Parse {
                        error: e@,
                        file_name: file,
                        policy: source@,
                    })
                    &&& forall|k: int|
                        0 <= k < parsed.recovered@.len() ==> errors@[#[trigger] (given_up + k)]
                            == (ErrorItemView::Parse {
                            error: parsed.recovered@[parsed.recovered@.len() - 1 - k].error@,
                            file_name: file,
                            policy: source@,
                        })
                }
            },
        },
{
    if let FileContent::Text { parsed, .. } = content {
        lemma_no_syntax_error_is_lost(parsed);
    }
}

/// The policy that the parser found, if it found no error, and all the errors if it found any.
///
/// The parser lists the errors that it got over from the last to the first; they come out from the
/// first to the last, behind the error at which it gave up.
pub fn parse_policy(parsed: ParserOutput) -> (result: Result<Policy, Vec<SyntaxError>>)
    ensures
        match result {
            Ok(policy) => syntax_errors(parsed).len() == 0 && parsed.result
                == Ok::<Policy, SyntaxError>(policy),
            Err(errors) => errors@.len() > 0 && errors@.map_values(|e: SyntaxError| e@)
                == syntax_errors(parsed),
        },
        result is Ok <==> parsed.recovered@.len() == 0 && parsed.result is Ok,
        result matches Err(errors) ==> {
            let given_up: int = if parsed.result is Err {
                1
            } else {
                0
            };
            &&& errors@.len() == parsed.recovered@.len() + given_up
            &&& parsed.result matches Err(e) ==> errors@[0]@ == e@
            &&& forall|k: int|
                0 <= k < parsed.recovered@.len() ==> errors@[#[trigger] (given_up + k)]@
                    == parsed.recovered@[parsed.recovered@.len() - 1 - k].error@
        },
{
    let ParserOutput { recovered, result } = parsed;
    let mut recovered = recovered;
    let ghost listed = recovered@;
    let mut parse_errors: Vec<SyntaxError> = Vec::new();
    let failure = match result {
        Ok(policy) => {
            if recovered.len() == 0 {
                return Ok(policy);
            }
            None
        },
        Err(e) => Some(e),
    };
    let ghost mut first: Seq<SyntaxErrorView> = Seq::empty();
    if let Some(e) = failure {
        proof {
            first = seq![e@];
        }
        parse_errors.push(e);
    }
    let ghost wanted = first + listed.map_values(|r: ErrorRecovery| r.error@).reverse();
    assert(parse_errors@.map_values(|e: SyntaxError| e@) =~= first);
    loop
        invariant
            recovered@.len() <= listed.len(),
            recovered@ == listed.take(recovered@.len() as int),
            wanted == first + listed.map_values(|r: ErrorRecovery| r.error@).reverse(),
            parse_errors@.map_values(|e: SyntaxError| e@) == wanted.take(
                first.len() + listed.len() - recovered@.len(),
            ),
        ensures
            recovered@.len() == 0,
        decreases recovered@.len(),
    {
        let ghost before = parse_errors@;
        let ghost left = recovered@.len();
        match recovered.pop() {
            Some(r) => {
                parse_errors.push(r.error);
                proof {
                    let done = first.len() + listed.len() - left;
                    assert(wanted[done] == r.error@);
                    assert(wanted.take(done + 1) =~= wanted.take(done).push(r.error@));
                    assert(parse_errors@.map_values(|e: SyntaxError| e@) =~= before.map_values(
                        |e: SyntaxError| e@,
                    ).push(r.error@));
                }
            },
            None => {
                break;
            },
        }
    }
    assert(wanted.take(wanted.len() as int) =~= wanted);
    let ghost views = parse_errors@.map_values(|e: SyntaxError| e@);
    assert(views == syntax_errors(parsed));
    proof {
        lemma_no_syntax_error_is_lost(parsed);
        assert forall|i: int| 0 <= i < parse_errors@.len() implies (#[trigger] parse_errors@[i])@
            == views[i] by {}
    }
    Err(parse_errors)
}

/// Loads the input file named `file`: its policy, if it could be read and parsed without an error,
/// and all the errors in it if not.
pub fn load_policy(file: String, content: FileContent) -> (result: Result<
    PolicyFile,
    CascadeErrors,
>)
    ensures
        loaded(file@, content, result),
{
    let mut errors = CascadeErrors::new();
    let (source, parsed) = match content {
        FileContent::Unreadable(e) => {
            errors.add_error(ErrorItem::IO(e));
            return Err(errors);
        },
        FileContent::Text { source, parsed } => (source, parsed),
    };
    let parse_errors = match parse_policy(parsed) {
        Ok(policy) => {
            return Ok(PolicyFile::new(policy, file, source));
        },
        Err(parse_errors) => parse_errors,
    };
    let ghost all = file_errors(file@, content);
    for i in 0..parse_errors.len()
        invariant
            parse_errors@.map_values(|e: SyntaxError| e@) == syntax_errors(parsed),
            all.len() == parse_errors@.len(),
            forall|j: int|
                0 <= j < all.len() ==> #[trigger] all[j] == (ErrorItemView::Parse {
                    error: syntax_errors(parsed)[j],
                    file_name: file@,
                    policy: source@,
                }),
            errors@ == all.take(i as int),
    {
        let e = ParseError::new(parse_errors[i].clone(), file.clone(), source.clone());
        errors.add_error(ErrorItem::Parse(e));
        assert(parse_errors@[i as int]@ == parse_errors@.map_values(|e: SyntaxError| e@)[i as int]);
        assert(all.take(i + 1) =~= all.take(i as int).push(all[i as int]));
    }
    assert(all.take(all.len() as int) =~= all);
    Err(errors)
}

} // verus!
