//! Processing modules: one source file each, with what the stages of
//! processing have made of it so far.
use crate::ast::{statements_view, Statement, StatementView};
use crate::error::{clone_errors, errors_view, Error, ErrorView, Span};
use crate::files::Source;
use crate::lexer;
use crate::model::evaluation;
use crate::parser;
use crate::runtime::evaluate;
use crate::scan::Outcome;
use crate::snapshot::{Snapshot, SnapshotView};
use crate::token::{Token as TokenKind, TokenView};
use core::ops::Range;
use vstd::prelude::*;

verus! {

/// A token with its place in the source text.
#[derive(Debug, PartialEq)]
pub struct Token {
    pub kind: TokenKind,
    pub span: Range<usize>,
}

impl Clone for Token {
    fn clone(&self) -> (r: Self)
        ensures
            r.kind@ == self.kind@,
            r.span == self.span,
    {
        Token { kind: self.kind.clone(), span: self.span.start..self.span.end }
    }
}

/// The tokens with their places, as the grammars speak of them.
pub open spec fn placed_view(tokens: Seq<Token>) -> Seq<(TokenView, Range<usize>)> {
    tokens.map_values(|t: Token| (t.kind@, t.span))
}

/// The characters of a text, in order.
pub fn chars_of(text: &str) -> (chars: Vec<char>)
    ensures
        chars@ == text@,
{
    let mut chars: Vec<char> = Vec::new();
    for c in it: text.chars()
        invariant
            it.seq() == text@,
            chars@ == it.seq().take(it.index() as int),
    {
        chars.push(c);
    }
    chars
}

/// What tokenizing a text comes to: the tokens from its beginning up to
/// where no further one begins, or, where a token breaks off, a diagnostic
/// at the character that does not fit.
pub open spec fn lexed(text: Seq<char>, file_id: usize) -> Result<
    Seq<(TokenView, Range<usize>)>,
    ErrorView<usize>,
> {
    match lexer::grammar::tokens(text, 0, Seq::empty()) {
        Outcome::Done(found, _) => Ok(found),
        Outcome::Failed(at, _) => Err(
            ErrorView::ParseError {
                expects: seq!["token"@],
                span: Span {
                    file_id,
                    span: lexer::grammar::place(text, at)..lexer::grammar::place(text, at + 1),
                },
            },
        ),
    }
}

/// What parsing tokens comes to: the statements from the first token up to
/// where no further one begins, or, where a statement breaks off, a
/// diagnostic at the token that does not fit.
pub open spec fn parsed(tokens: Seq<(TokenView, Range<usize>)>, file_id: usize) -> Result<
    Seq<StatementView<usize>>,
    ErrorView<usize>,
> {
    match parser::grammar::statements(tokens, 0, Seq::empty()) {
        Outcome::Done(found, _) => Ok(found),
        Outcome::Failed(at, _) => Err(
            ErrorView::ParseError {
                expects: seq!["statement"@],
                span: Span { file_id, span: parser::grammar::span(tokens, at, at + 1) },
            },
        ),
    }
}

/// The diagnostic of a stage that came to nothing.
fn parse_error(expects: &str, file_id: usize, span: Range<usize>) -> (e: Error<usize>)
    ensures
        e@ == (ErrorView::ParseError { expects: seq![expects@], span: Span { file_id, span } }),
{
    let mut labels: Vec<String> = Vec::new();
    labels.push(expects.to_owned());
    let e = Error::ParseError { expects: labels, span: Span { file_id, span } };
    assert(e@->ParseError_expects =~= seq![expects@]);
    e
}

/// Tokenizes a source text.
pub fn tokenize(source: &str, file_id: usize) -> (r: Result<Vec<Token>, Error<usize>>)
    ensures
        match r {
            Ok(tokens) => lexed(source@, file_id) == Ok::<
                Seq<(TokenView, Range<usize>)>,
                ErrorView<usize>,
            >(placed_view(tokens@)),
            Err(e) => lexed(source@, file_id) == Err::<
                Seq<(TokenView, Range<usize>)>,
                ErrorView<usize>,
            >(e@),
        },
{
    let chars = chars_of(source);
    match lexer::tokenize(chars.as_slice()) {
        Ok((tokens, _)) => Ok(tokens),
        Err(failure) => {
            let from = lexer::place(chars.as_slice(), failure.at);
            let to = if failure.at < usize::MAX {
                lexer::place(chars.as_slice(), failure.at + 1)
            } else {
                from
            };
            proof {
                lexer::grammar::lemma_tokens_fail_inside(source@, 0, Seq::empty());
            }
            Err(parse_error("token", file_id, from..to))
        },
    }
}

/// Parses tokens into statements.
pub fn parse(tokens: &[Token], file_id: usize) -> (r: Result<Vec<Statement<usize>>, Error<usize>>)
    ensures
        match r {
            Ok(ast) => parsed(placed_view(tokens@), file_id) == Ok::<
                Seq<StatementView<usize>>,
                ErrorView<usize>,
            >(statements_view(ast@)),
            Err(e) => parsed(placed_view(tokens@), file_id) == Err::<
                Seq<StatementView<usize>>,
                ErrorView<usize>,
            >(e@),
        },
{
    match parser::parse(tokens) {
        Ok((ast, _)) => Ok(ast),
        Err(failure) => {
            let to = if failure.at < tokens.len() {
                failure.at + 1
            } else {
                failure.at
            };
            proof {
                parser::grammar::lemma_statements_fail_inside(
                    placed_view(tokens@),
                    0,
                    Seq::empty(),
                );
            }
            Err(parse_error("statement", file_id, parser::token::span(tokens, failure.at, to)))
        },
    }
}

/// A struct contains partial (or full) information while processing a module
#[derive(Debug, PartialEq)]
pub struct Module {
    file_id: usize,
    name: String,
    source: Source,
    tokens: Option<Vec<Token>>,
    ast: Option<Vec<Statement<usize>>>,
    ir: Option<Snapshot<usize>>,
    errors: Vec<Error<usize>>,
}

/// The mathematical model of a [`Module`].
pub struct ModuleView {
    pub file_id: usize,
    pub name: Seq<char>,
    pub text: Seq<char>,
    pub tokens: Option<Seq<(TokenView, Range<usize>)>>,
    pub ast: Option<Seq<StatementView<usize>>>,
    pub ir: Option<SnapshotView<usize>>,
    pub errors: Seq<ErrorView<usize>>,
}

impl ModuleView {
    /// A module of which nothing is processed yet.
    pub open spec fn new(file_id: usize, name: Seq<char>, text: Seq<char>) -> ModuleView {
        ModuleView {
            file_id,
            name,
            text,
            tokens: None,
            ast: None,
            ir: None,
            errors: Seq::empty(),
        }
    }

    /// The module with its tokens. A text that is no sequence of tokens
    /// leaves a diagnostic and no tokens. Tokens that are there stay.
    pub open spec fn tokenize(self) -> ModuleView {
        if self.tokens is Some {
            self
        } else {
            match lexed(self.text, self.file_id) {
                Ok(tokens) => ModuleView { tokens: Some(tokens), ..self },
                Err(e) => ModuleView {
                    tokens: Some(Seq::empty()),
                    errors: self.errors.push(e),
                    ..self
                },
            }
        }
    }

    /// The module with its statements, for which it is tokenized first.
    /// Tokens that are no sequence of statements leave a diagnostic and no
    /// statements. Statements that are there stay, and nothing else changes
    /// then.
    pub open spec fn parse(self) -> ModuleView {
        if self.ast is Some {
            self
        } else {
            let m = self.tokenize();
            match parsed(m.tokens->0, m.file_id) {
                Ok(ast) => ModuleView { ast: Some(ast), ..m },
                Err(e) => ModuleView { ast: Some(Seq::empty()), errors: m.errors.push(e), ..m },
            }
        }
    }

    /// The module with what evaluating its statements leaves behind, for
    /// which it is parsed first. The diagnostics of the evaluation are added
    /// to those of the module. A snapshot that is there stays, and nothing
    /// else changes then.
    pub open spec fn evaluate(self) -> ModuleView {
        if self.ir is Some {
            self
        } else {
            let m = self.parse();
            let snapshot = evaluation(m.ast->0, m.file_id);
            ModuleView { ir: Some(snapshot), errors: m.errors + snapshot.errors, ..m }
        }
    }
}

/// Copies a list of tokens.
fn clone_tokens(tokens: &Vec<Token>) -> (copy: Vec<Token>)
    ensures
        placed_view(copy@) == placed_view(tokens@),
{
    let mut copy: Vec<Token> = Vec::new();
    let mut i: usize = 0;
    while i < tokens.len()
        invariant
            i <= tokens.len(),
            copy@.len() == i,
            forall|j: int|
                0 <= j < i ==> (#[trigger] copy@[j]).kind@ == tokens@[j].kind@ && copy@[j].span
                    == tokens@[j].span,
        decreases tokens.len() - i,
    {
        copy.push(tokens[i].clone());
        i += 1;
    }
    copy
}

/// Copies a list of statements.
fn clone_statements(ast: &Vec<Statement<usize>>) -> (copy: Vec<Statement<usize>>)
    ensures
        statements_view(copy@) == statements_view(ast@),
{
    let mut copy: Vec<Statement<usize>> = Vec::new();
    let mut i: usize = 0;
    while i < ast.len()
        invariant
            i <= ast.len(),
            copy@.len() == i,
            forall|j: int| 0 <= j < i ==> (#[trigger] copy@[j])@ == ast@[j]@,
        decreases ast.len() - i,
    {
        copy.push(ast[i].clone());
        i += 1;
    }
    copy
}

impl Clone for Module {
    fn clone(&self) -> (r: Self)
        ensures
            r@ == self@,
            self.wf() ==> r.wf(),
    {
        Module {
            file_id: self.file_id,
            name: self.name.clone(),
            source: self.source.clone(),
            tokens: match &self.tokens {
                Some(tokens) => Some(clone_tokens(tokens)),
                None => None,
            },
            ast: match &self.ast {
                Some(ast) => Some(clone_statements(ast)),
                None => None,
            },
            ir: match &self.ir {
                Some(snapshot) => Some(snapshot.clone()),
                None => None,
            },
            errors: clone_errors(&self.errors),
        }
    }
}

impl Module {
    pub closed spec fn view(&self) -> ModuleView {
        ModuleView {
            file_id: self.file_id,
            name: self.name@,
            text: self.source@,
            tokens: match self.tokens {
                Some(tokens) => Some(placed_view(tokens@)),
                None => None,
            },
            ast: match self.ast {
                Some(ast) => Some(statements_view(ast@)),
                None => None,
            },
            ir: match self.ir {
                Some(snapshot) => Some(snapshot@),
                None => None,
            },
            errors: errors_view(self.errors@),
        }
    }

    /// The snapshot of an evaluated module has a well-formed root table.
    pub closed spec fn wf(&self) -> bool {
        self.ir matches Some(snapshot) ==> snapshot.wf()
    }

    /// Creates a new instance.
    pub fn new(file_id: usize, name: String, source: String) -> (m: Self)
        ensures
            m.wf(),
            m@ == ModuleView::new(file_id, name@, source@),
    {
        let m = Module {
            file_id,
            name,
            source: Source::new(source),
            tokens: None,
            ast: None,
            ir: None,
            errors: Vec::new(),
        };
        assert(errors_view(m.errors@) =~= Seq::empty());
        m
    }

    /// Tokenizes the module and returns a reference of tokens.
    pub fn tokenize(&mut self) -> (tokens: &[Token])
        requires
            old(self).wf(),
        ensures
            final(self).wf(),
            final(self)@ == old(self)@.tokenize(),
            final(self)@.tokens == Some(placed_view(tokens@)),
    {
        if self.tokens.is_none() {
            let tokens = match tokenize(self.source.as_str(), self.file_id) {
                Ok(tokens) => tokens,
                Err(err) => {
                    let ghost before = errors_view(self.errors@);
                    let ghost added = err@;
                    self.errors.push(err);
                    proof {
                        assert(errors_view(self.errors@) =~= before.push(added));
                    }
                    let empty: Vec<Token> = Vec::new();
                    assert(placed_view(empty@) =~= Seq::empty());
                    empty
                },
            };
            self.tokens = Some(tokens);
        }
        self.tokens.as_ref().unwrap().as_slice()
    }

    /// Parses the module and returns a reference of the parsed AST.
    ///
    /// Note that this function also does tokenizing if it has not done yet.
    pub fn parse(&mut self) -> (ast: &[Statement<usize>])
        requires
            old(self).wf(),
        ensures
            final(self).wf(),
            final(self)@ == old(self)@.parse(),
            final(self)@.ast == Some(statements_view(ast@)),
    {
        if self.ast.is_none() {
            let id = self.file_id;
            let tokens = self.tokenize();
            let ast = match parse(tokens, id) {
                Ok(ast) => ast,
                Err(err) => {
                    let ghost before = errors_view(self.errors@);
                    let ghost added = err@;
                    self.errors.push(err);
                    proof {
                        assert(errors_view(self.errors@) =~= before.push(added));
                    }
                    let empty: Vec<Statement<usize>> = Vec::new();
                    assert(statements_view(empty@) =~= Seq::empty());
                    empty
                },
            };
            self.ast = Some(ast);
        }
        self.ast.as_ref().unwrap().as_slice()
    }

    /// Evaluates the module, once, and returns a reference of what the
    /// evaluation left behind.
    ///
    /// Note that this function also does parsing if it has not done yet.
    pub fn evaluate(&mut self) -> (snapshot: &Snapshot<usize>)
        requires
            old(self).wf(),
        ensures
            final(self).wf(),
            final(self)@ == old(self)@.evaluate(),
            final(self)@.ir == Some(snapshot@),
            snapshot.wf(),
    {
        if self.ir.is_none() {
            let id = self.file_id;
            let snapshot = evaluate(self.parse(), id);
            let mut errors = clone_errors(&snapshot.errors);
            let ghost before = self.errors@;
            let ghost added = errors@;
            self.errors.append(&mut errors);
            proof {
                assert(errors_view(before + added) =~= errors_view(before) + errors_view(added));
            }
            self.ir = Some(snapshot);
        }
        self.ir.as_ref().unwrap()
    }

    /// Gets a reference for the name of the module.
    pub fn get_name(&self) -> (name: &str)
        ensures
            name@ == self@.name,
    {
        self.name.as_str()
    }

    /// Gets a reference for the source code of the module.
    pub fn get_source(&self) -> (text: &str)
        ensures
            text@ == self@.text,
    {
        self.source.as_str()
    }

    /// Gets the identifier of the module's file.
    pub fn get_file_id(&self) -> (id: usize)
        ensures
            id == self@.file_id,
    {
        self.file_id
    }

    /// Gets the source code of the module with its line index.
    pub fn get_lines(&self) -> (source: &Source)
        ensures
            source@ == self@.text,
    {
        &self.source
    }

    /// Gets a reference for the tokenized result of the module.
    pub fn get_tokens(&self) -> (tokens: Option<&[Token]>)
        ensures
            match tokens {
                Some(tokens) => self@.tokens == Some(placed_view(tokens@)),
                None => self@.tokens is None,
            },
    {
        match &self.tokens {
            Some(tokens) => Some(tokens.as_slice()),
            None => None,
        }
    }

    /// Gets a reference for the parsed AST of the module.
    pub fn get_ast(&self) -> (ast: Option<&[Statement<usize>]>)
        ensures
            match ast {
                Some(ast) => self@.ast == Some(statements_view(ast@)),
                None => self@.ast is None,
            },
    {
        match &self.ast {
            Some(ast) => Some(ast.as_slice()),
            None => None,
        }
    }

    /// Gets a reference for what the evaluation left behind.
    pub fn get_ir(&self) -> (ir: Option<&Snapshot<usize>>)
        ensures
            match ir {
                Some(snapshot) => self@.ir == Some(snapshot@) && (self.wf() ==> snapshot.wf()),
                None => self@.ir is None,
            },
    {
        self.ir.as_ref()
    }

    /// Gets the diagnostics of all stages so far.
    pub fn get_errors(&self) -> (errors: &[Error<usize>])
        ensures
            errors_view(errors@) == self@.errors,
    {
        self.errors.as_slice()
    }
}

/// A struct contains all runtime informations
#[derive(Debug)]
pub struct Runtime {
    modules: Vec<Module>,
}

impl Clone for Runtime {
    fn clone(&self) -> (r: Self)
        ensures
            r.modules().len() == self.modules().len(),
            forall|j: int|
                0 <= j < self.modules().len() ==> (#[trigger] r.modules()[j])@ == self.modules()[j]@,
    {
        let mut modules: Vec<Module> = Vec::new();
        let mut i: usize = 0;
        while i < self.modules.len()
            invariant
                i <= self.modules.len(),
                modules@.len() == i,
                forall|j: int| 0 <= j < i ==> (#[trigger] modules@[j])@ == self.modules@[j]@,
            decreases self.modules.len() - i,
        {
            modules.push(self.modules[i].clone());
            i += 1;
        }
        Runtime { modules }
    }
}

impl Runtime {
    /// The modules, indexed by identifiers.
    pub closed spec fn modules(&self) -> Seq<Module> {
        self.modules@
    }

    /// Creates a new instance, with one module.
    pub fn new(name: String, source: String) -> (rt: Self)
        ensures
            rt.modules().len() == 1,
            rt.modules()[0].wf(),
            rt.modules()[0]@ == ModuleView::new(0, name@, source@),
    {
        let mut modules: Vec<Module> = Vec::new();
        modules.push(Module::new(0, name, source));
        Runtime { modules }
    }

    /// Gets a slice of modules indexed by identifiers.
    pub fn get_modules(&self) -> (modules: &[Module])
        ensures
            modules@ == self.modules(),
    {
        self.modules.as_slice()
    }

    /// Gets a reference of a module corresponding to given identifier.
    pub fn get_module(&self, id: usize) -> (module: Option<&Module>)
        ensures
            match module {
                Some(module) => id < self.modules().len() && *module == self.modules()[id as int],
                None => id >= self.modules().len(),
            },
    {
        if id < self.modules.len() {
            Some(&self.modules[id])
        } else {
            None
        }
    }

    /// Gets a mutable reference of a module corresponding to given identifier.
    pub fn get_module_mut(&mut self, id: usize) -> (module: Option<&mut Module>)
        ensures
            match module {
                Some(module) => {
                    &&& id < old(self).modules().len()
                    &&& *module == old(self).modules()[id as int]
                    &&& final(self).modules() == old(self).modules().update(id as int, *final(module))
                },
                None => id >= old(self).modules().len() && final(self).modules() == old(
                    self,
                ).modules(),
            },
    {
        if id < self.modules.len() {
            Some(&mut self.modules[id])
        } else {
            None
        }
    }

    /// Gets a reference of a module corresponding to given name: the first
    /// module of that name, with its identifier.
    pub fn get_module_by_name(&self, name: &str) -> (found: Option<(usize, &Module)>)
        ensures
            match found {
                Some((id, module)) => {
                    &&& id < self.modules().len()
                    &&& *module == self.modules()[id as int]
                    &&& module@.name == name@
                    &&& forall|j: int| 0 <= j < id ==> (#[trigger] self.modules()[j])@.name != name@
                },
                None => forall|j: int|
                    0 <= j < self.modules().len() ==> (#[trigger] self.modules()[j])@.name != name@,
            },
    {
        let wanted = name.to_owned();
        let mut i: usize = 0;
        while i < self.modules.len()
            invariant
                i <= self.modules.len(),
                wanted@ == name@,
                forall|j: int| 0 <= j < i ==> (#[trigger] self.modules@[j])@.name != name@,
            decreases self.modules.len() - i,
        {
            if self.modules[i].name == wanted {
                return Some((i, &self.modules[i]));
            }
            i += 1;
        }
        None
    }
}

} // verus!
