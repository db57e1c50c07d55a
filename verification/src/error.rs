//! The errors that a compilation reports.
use vstd::prelude::*;
use vstd::std_specs::convert::FromSpecImpl;

use crate::syntax::{SyntaxError, SyntaxErrorView};

verus! {

/// A policy that breaks a rule of the language.
#[derive(Debug)]
pub struct CompileError {
    pub message: String,
}

/// A state that the compiler should never reach.
#[derive(Debug)]
pub struct InternalError {}

/// A system that was asked for and that no policy declares.
#[derive(Debug)]
pub struct InvalidSystemError {
    pub message: String,
}

/// A file that could not be read.
#[derive(Debug)]
pub struct IOError {
    pub message: String,
}

/// A syntax error, with the file that it is in and the text of that file.
#[derive(Debug)]
pub struct ParseError {
    pub error: SyntaxError,
    pub file_name: String,
    pub policy: String,
}

/// One error of any kind.
#[derive(Debug)]
pub enum ErrorItem {
    Compile(CompileError),
    Internal(InternalError),
    Parse(ParseError),
    InvalidSystem(InvalidSystemError),
    IO(IOError),
}

/// An [`ErrorItem`] with texts in place of strings.
pub enum ErrorItemView {
    Compile { message: Seq<char> },
    Internal,
    Parse { error: SyntaxErrorView, file_name: Seq<char>, policy: Seq<char> },
    InvalidSystem { message: Seq<char> },
    IO { message: Seq<char> },
}

impl View for ErrorItem {
    type V = ErrorItemView;

    open spec fn view(&self) -> ErrorItemView {
        match *self {
            ErrorItem::Compile(e) => ErrorItemView::Compile { message: e.message@ },
            ErrorItem::Internal(_) => ErrorItemView::Internal,
            ErrorItem::Parse(e) => ErrorItemView::Parse {
                error: e.error@,
                file_name: e.file_name@,
                policy: e.policy@,
            },
            ErrorItem::InvalidSystem(e) => ErrorItemView::InvalidSystem { message: e.message@ },
            ErrorItem::IO(e) => ErrorItemView::IO { message: e.message@ },
        }
    }
}

impl Clone for ErrorItem {
    fn clone(&self) -> (copy: Self)
        ensures
            copy@ == self@,
    {
        match self {
            ErrorItem::Compile(e) => {
                ErrorItem::Compile(CompileError { message: e.message.clone() })
            },
            ErrorItem::Internal(_) => ErrorItem::Internal(InternalError {  }),
            ErrorItem::Parse(e) => ErrorItem::Parse(
                ParseError {
                    error: e.error.clone(),
                    file_name: e.file_name.clone(),
                    policy: e.policy.clone(),
                },
            ),
            ErrorItem::InvalidSystem(e) => {
                ErrorItem::InvalidSystem(InvalidSystemError { message: e.message.clone() })
            },
            ErrorItem::IO(e) => ErrorItem::IO(IOError { message: e.message.clone() }),
        }
    }
}

impl InternalError {
    pub fn new() -> (error: Self)
        ensures
            error == (InternalError {  }),
    {
        InternalError {  }
    }
}

impl InvalidSystemError {
    pub fn new(message: String) -> (error: Self)
        ensures
            error.message@ == message@,
    {
        InvalidSystemError { message }
    }
}

impl ParseError {
    /// The syntax error `error` in the file `file_name`, which holds the text `policy`.
    pub fn new(error: SyntaxError, file_name: String, policy: String) -> (result: Self)
        ensures
            result.error@ == error@,
            result.file_name@ == file_name@,
            result.policy@ == policy@,
    {
        ParseError { error, file_name, policy }
    }

    /// The headline under which the error is shown.
    pub fn message(&self) -> (message: String)
        ensures
            message@ == self.error@.message(),
    {
        self.error.message()
    }
}

/// The errors found so far, in the order in which they were found.
#[derive(Debug)]
pub struct CascadeErrors {
    errors: Vec<ErrorItem>,
}

impl View for CascadeErrors {
    type V = Seq<ErrorItemView>;

    closed spec fn view(&self) -> Seq<ErrorItemView> {
        self.errors@.map_values(|e: ErrorItem| e@)
    }
}

impl CascadeErrors {
    /// No errors.
    pub fn new() -> (result: Self)
        ensures
            result@ == Seq::<ErrorItemView>::empty(),
    {
        let result = CascadeErrors { errors: Vec::new() };
        assert(result@ =~= Seq::empty());
        result
    }

    /// Adds one error behind those found so far.
    pub fn add_error(&mut self, error: ErrorItem)
        ensures
            final(self)@ == old(self)@.push(error@),
    {
        self.errors.push(error);
        assert(self@ =~= old(self)@.push(error@));
    }

    /// Adds the errors of `other`, in their order, behind those found so far.
    pub fn append(&mut self, mut other: CascadeErrors)
        ensures
            final(self)@ == old(self)@ + other@,
    {
        let ghost added = other@;
        self.errors.append(&mut other.errors);
        assert(self@ =~= old(self)@ + added);
    }

    /// The value `value` if there are no errors, and the errors if there are any.
    pub fn into_result<T>(self, value: T) -> (result: Result<T, CascadeErrors>)
        ensures
            self@.len() == 0 ==> result == Ok::<T, CascadeErrors>(value),
            self@.len() > 0 ==> (result matches Err(e) && e@ == self@),
    {
        if self.errors.len() == 0 {
            Ok(value)
        } else {
            Err(self)
        }
    }

    /// The empty list itself if there are no errors, and the errors if there are any.
    pub fn into_result_self(self) -> (result: Result<CascadeErrors, CascadeErrors>)
        ensures
            self@.len() == 0 ==> (result matches Ok(e) && e@ == self@),
            self@.len() > 0 ==> (result matches Err(e) && e@ == self@),
    {
        if self.errors.len() == 0 {
            Ok(self)
        } else {
            Err(self)
        }
    }

    /// How many errors there are.
    pub fn error_count(&self) -> (count: usize)
        ensures
            count == self@.len(),
    {
        self.errors.len()
    }

    /// The errors, one by one, in the order in which they were found.
    pub fn into_items(self) -> (items: Vec<ErrorItem>)
        ensures
            items@.map_values(|e: ErrorItem| e@) == self@,
    {
        self.errors
    }
}

impl Clone for CascadeErrors {
    fn clone(&self) -> (copy: Self)
        ensures
            copy@ == self@,
    {
        let mut copy = CascadeErrors::new();
        for i in 0..self.errors.len()
            invariant
                copy@ == self@.take(i as int),
        {
            copy.add_error(self.errors[i].clone());
            assert(self@.take(i + 1) =~= self@.take(i as int).push(self@[i as int]));
        }
        assert(self@.take(self@.len() as int) =~= self@);
        copy
    }
}

impl FromSpecImpl<InternalError> for CascadeErrors {
    open spec fn obeys_from_spec() -> bool {
        false
    }

    open spec fn from_spec(e: InternalError) -> CascadeErrors {
        arbitrary()
    }
}

impl From<InternalError> for CascadeErrors {
    fn from(error: InternalError) -> (result: CascadeErrors)
        ensures
            result@ == seq![ErrorItemView::Internal],
    {
        let mut result = CascadeErrors::new();
        result.add_error(ErrorItem::Internal(error));
        result
    }
}

impl FromSpecImpl<InvalidSystemError> for CascadeErrors {
    open spec fn obeys_from_spec() -> bool {
        false
    }

    open spec fn from_spec(e: InvalidSystemError) -> CascadeErrors {
        arbitrary()
    }
}

impl From<InvalidSystemError> for CascadeErrors {
    fn from(error: InvalidSystemError) -> (result: CascadeErrors)
        ensures
            result@ == seq![ErrorItemView::InvalidSystem { message: error.message@ }],
    {
        let mut result = CascadeErrors::new();
        result.add_error(ErrorItem::InvalidSystem(error));
        result
    }
}

/// An error is to the contracts what it is: its kind, and the texts in it.
pub proof fn lemma_error_item_view(error: ErrorItem)
    ensures
        match error {
            ErrorItem::Compile(e) => error@ == (ErrorItemView::Compile { message: e.message@ }),
            ErrorItem::Internal(_) => error@ is Internal,
            ErrorItem::Parse(e) => {
                &&& error@ is Parse
                &&& error@->error == e.error@
                &&& error@->file_name == e.file_name@
                &&& error@->policy == e.policy@
            },
            ErrorItem::InvalidSystem(e) => error@ == (ErrorItemView::InvalidSystem {
                message: e.message@,
            }),
            ErrorItem::IO(e) => error@ == (ErrorItemView::IO { message: e.message@ }),
        },
{
}

} // verus!
