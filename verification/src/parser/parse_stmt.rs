use vstd::prelude::*;

use crate::ast::expressions::Expression;
use crate::ast::statements::{
    ClassDecl, FuncDecl, ImportPropertyKind, Parameter, Renameable, Statement, StatementKind, VarDecl,
};
use crate::ast::symbol::AstSymbol;
use crate::ast::types::{Type, TypeKind};
use crate::ast::visibility::Visibility;
use crate::diagnostic::{DiagnosticReport, DiagnosticResult};
use crate::lexer::tokens::kind::{KeywordKind, LiteralKind, OperatorKind, PunctuationKind, TokenKind};
use crate::parser::diagnostics::ParserDiagnostic;
use crate::parser::parse_expr::stmt_grouped;
use crate::parser::grammar::{
    StP, expr_stmt, fails_as, filed_all, lemma_decl_step, lemma_with_vis, lemma_filed_none, lemma_filed_trans, lemma_semi, outcome, param_conforms,
    params_after, semi_reps, sp_decl, items_prepend, sp_items, sp_import, import_lib, is_word, ItemsR, ImportSk, Fail, sp_expression, sp_function, sp_jump, sp_params, sp_return, sp_stmt, sp_var,
    sp_visibility, st_conforms, st_outcome, stmt_outcome, symbol_of, tok, type_named, with_vis, ParamSk, ParamsR, Rep,
    StR, StSk,
};
use crate::parser::{lemma_filed_one, radix_valid_from, report_at, semi_required, LumaParser};
use crate::span::{Cursor, Span};

verus! {

/// `stmt` with its declaration given visibility `visibility`.
fn with_visibility(stmt: Statement, visibility: Visibility) -> (r: Statement)
    ensures
        r.span == stmt.span,
        r.cursor == stmt.cursor,
        match stmt.kind {
            StatementKind::VarDecl(d) => r.kind == StatementKind::VarDecl(
                VarDecl { visibility, symbol: d.symbol, mutable: d.mutable, value: d.value, ty: d.ty },
            ),
            StatementKind::FuncDecl(d) => r.kind == StatementKind::FuncDecl(
                FuncDecl {
                    visibility,
                    symbol: d.symbol,
                    parameters: d.parameters,
                    return_type: d.return_type,
                    body: d.body,
                },
            ),
            StatementKind::ClassDecl(d) => r.kind == StatementKind::ClassDecl(
                ClassDecl { visibility, symbol: d.symbol, fields: d.fields, methods: d.methods },
            ),
            _ => r.kind == stmt.kind,
        },
{
    let Statement { kind, span, cursor } = stmt;
    let kind = match kind {
        StatementKind::VarDecl(d) => StatementKind::VarDecl(
            VarDecl { visibility, symbol: d.symbol, mutable: d.mutable, value: d.value, ty: d.ty },
        ),
        StatementKind::FuncDecl(d) => StatementKind::FuncDecl(
            FuncDecl {
                visibility,
                symbol: d.symbol,
                parameters: d.parameters,
                return_type: d.return_type,
                body: d.body,
            },
        ),
        StatementKind::ClassDecl(d) => StatementKind::ClassDecl(
            ClassDecl { visibility, symbol: d.symbol, fields: d.fields, methods: d.methods },
        ),
        other => other,
    };
    Statement { kind, span, cursor }
}

impl LumaParser {
    /// Reads a statement and the semicolon after it. A missing semicolon is reported where
    /// `semicolon` says one is required (by default: where the statement needs one).
    pub fn parse_statement(&mut self, semicolon: Option<bool>) -> (r: DiagnosticResult<Statement>)
        requires
            old(self).wf(),
        ensures
            r matches Ok(s) ==> stmt_grouped(s),
            final(self).moved_on(*old(self)),
            !old(self).at_end() ==> final(self).ppos() > old(self).ppos() || !radix_valid_from(old(self).toks(), old(self).ppos()),
            (r matches Ok(s) && s.kind is EndOfFile) ==> {
                &&& old(self).cur().kind == TokenKind::EndOfFile
                &&& final(self).ppos() == old(self).ppos()
            },
            stmt_outcome(*old(self), *final(self), r, semicolon, sp_stmt(old(self).toks(), old(self).ppos())),
        decreases old(self).remaining(), 32nat,
    {
        proof {
            reveal(sp_stmt);
        }
        let ghost t = self.toks();
        let ghost sp = sp_stmt(t, self.ppos());
        let ghost r0 = self.spec_reporter();
        let result = self.statement();
        let check_semi = match semicolon {
            Some(s) => s,
            None => match &result {
                Ok(statement) => self.is_semi_required(statement),
                Err(_) => true,
            },
        };
        proof {
            self.lemma_end_is_eof();
            if let StR::Tree(sk) = sp.r {
                lemma_semi(t, result->Ok_0, sk);
            }
        }
        let ghost r1 = self.spec_reporter();
        let semi = self.consume(TokenKind::Punctuation(PunctuationKind::Semicolon));
        if let Err(err) = semi {
            if result.is_ok() && check_semi {
                let ghost mid = self.spec_reporter();
                let ghost d = err;
                self.report(err);
                proof {
                    if let StR::Tree(sk) = sp.r {
                        lemma_filed_one(mid, self.spec_reporter(), t, d, Rep::Semi(sp.pos));
                        lemma_filed_trans(r0, r1, self.spec_reporter(), t, sp.reps, seq![Rep::Semi(sp.pos)]);
                    }
                }
            } else {
                proof {
                    if let StR::Tree(sk) = sp.r {
                        assert(sp.reps + semi_reps(t, sp.pos, check_semi) =~= sp.reps);
                    }
                }
            }
        } else {
            proof {
                if let StR::Tree(sk) = sp.r {
                    assert(sp.reps + semi_reps(t, sp.pos, check_semi) =~= sp.reps);
                }
            }
        }
        result
    }

    /// A declaration, `return`, `break`, `continue`, `import`, the end of the file, or an expression.
    fn statement(&mut self) -> (r: DiagnosticResult<Statement>)
        requires
            old(self).wf(),
        ensures
            r matches Ok(s) ==> stmt_grouped(s),
            final(self).moved_on(*old(self)),
            !old(self).at_end() ==> final(self).ppos() > old(self).ppos() || !radix_valid_from(old(self).toks(), old(self).ppos()),
            old(self).cur().kind == TokenKind::EndOfFile ==> (r matches Ok(s) && s.kind is EndOfFile),
            (r matches Ok(s) && s.kind is EndOfFile) ==> {
                &&& old(self).cur().kind == TokenKind::EndOfFile
                &&& *final(self) == *old(self)
            },
            st_outcome(*old(self), *final(self), r, sp_stmt(old(self).toks(), old(self).ppos())),
        decreases old(self).remaining(), 31nat,
    {
        proof {
            reveal(sp_stmt);
        }
        proof {
            self.lemma_end_is_eof();
        }
        let current = self.current();
        let (span, cursor) = current.pos();
        match current.kind {
            TokenKind::Keyword(KeywordKind::Function) | TokenKind::Keyword(KeywordKind::Var)
            | TokenKind::Keyword(KeywordKind::Class) | TokenKind::Keyword(KeywordKind::Public) => self.declaration(),
            TokenKind::Keyword(KeywordKind::Return) => self.stmt_return(),
            TokenKind::Keyword(KeywordKind::Continue) => self.stmt_loop_control(KeywordKind::Continue),
            TokenKind::Keyword(KeywordKind::Break) => self.stmt_loop_control(KeywordKind::Break),
            TokenKind::Keyword(KeywordKind::Import) => self.stmt_import(),
            TokenKind::EndOfFile => Ok(Statement { kind: StatementKind::EndOfFile, span, cursor }),
            _ => self.stmt_expression(),
        }
    }

    /// A function or variable declaration, after an optional visibility.
    #[verifier::rlimit(60)]
    fn declaration(&mut self) -> (r: DiagnosticResult<Statement>)
        requires
            old(self).wf(),
            old(self).cur().kind == TokenKind::Keyword(KeywordKind::Function)
                || old(self).cur().kind == TokenKind::Keyword(KeywordKind::Var)
                || old(self).cur().kind == TokenKind::Keyword(KeywordKind::Class)
                || old(self).cur().kind == TokenKind::Keyword(KeywordKind::Public),
        ensures
            r matches Ok(s) ==> stmt_grouped(s),
            r matches Ok(s) ==> !(s.kind is EndOfFile),
            final(self).moved_on(*old(self)),
            final(self).ppos() > old(self).ppos(),
            st_outcome(*old(self), *final(self), r, sp_decl(old(self).toks(), old(self).ppos())),
        decreases old(self).remaining(), 30nat,
    {
        proof {
            self.lemma_end_is_eof();
        }
        let ghost t = self.toks();
        let ghost p0 = self.ppos();
        let ghost r0 = self.spec_reporter();
        let ghost v = sp_visibility(t, p0);
        let (mut span, mut cursor) = self.current().pos();
        let visibility = self.get_visibility(&mut span, &mut cursor)?;
        proof {
            self.lemma_end_is_eof();
        }
        let ghost d = self.ppos();
        let ghost rd = self.spec_reporter();
        proof {
            assert(v.fail is None);
            assert(d == v.pos && d >= p0);
        }
        let kind = self.current().kind;
        let stmt = match kind {
            TokenKind::Keyword(KeywordKind::Function) => {
                let ghost f = sp_function(t, d, false);
                proof {
                    lemma_decl_step(t, p0);
                    lemma_with_vis(f, v.vis);
                }
                let st = match self.stmt_function(None) {
                    Ok(st) => st,
                    Err(e) => {
                        proof {
                            if !(f.r is Beyond) {
                                lemma_filed_trans(r0, rd, self.spec_reporter(), t, v.reps, f.reps);
                            }
                        }
                        return Err(e);
                    },
                };
                proof {
                    if !(f.r is Beyond) {
                        lemma_filed_trans(r0, rd, self.spec_reporter(), t, v.reps, f.reps);
                    }
                }
                st
            },
            TokenKind::Keyword(KeywordKind::Var) => {
                let ghost f = sp_var(t, d);
                let st = match self.stmt_var() {
                    Ok(st) => st,
                    Err(e) => {
                        proof {
                            lemma_decl_step(t, p0);
                            lemma_with_vis(f, v.vis);
                            if !(f.r is Beyond) {
                                lemma_filed_trans(r0, rd, self.spec_reporter(), t, v.reps, f.reps);
                            }
                        }
                        return Err(e);
                    },
                };
                proof {
                    if !(f.r is Beyond) {
                        lemma_filed_trans(r0, rd, self.spec_reporter(), t, v.reps, f.reps);
                    }
                }
                st
            },
            _ => {
                return Err(self.diagnostic(ParserDiagnostic::UnexpectedToken(kind)));
            },
        };
        let ghost f = if kind == TokenKind::Keyword(KeywordKind::Function) { sp_function(t, d, false) } else { sp_var(t, d) };
        let res = with_visibility(stmt, visibility);
        proof {
            lemma_decl_step(t, p0);
            lemma_with_vis(f, v.vis);
            if let StR::Tree(sk) = f.r {
                match sk {
                    StSk::Func(_, a, b, c, e, g, h) => {
                        assert(st_conforms(t, res, StSk::Func(visibility, a, b, c, e, g, h)));
                    },
                    StSk::Var(_, a, b, c, e, g) => {
                        assert(st_conforms(t, res, StSk::Var(visibility, a, b, c, e, g)));
                    },
                    _ => {},
                }
            }
        }
        Ok(res)
    }

    /// `pub`, `pub(this)`, `pub(inherit)`, `pub(module)`, or nothing (private).
    fn get_visibility(&mut self, span: &mut Span, cursor: &mut Cursor) -> (r: DiagnosticResult<Visibility>)
        requires
            old(self).wf(),
        ensures
            final(self).moved_on(*old(self)),
            old(self).cur().kind == TokenKind::Keyword(KeywordKind::Public) ==> final(self).ppos() > old(self).ppos(),
            old(self).cur().kind != TokenKind::Keyword(KeywordKind::Public) ==> {
                &&& r == Ok::<Visibility, DiagnosticReport>(Visibility::Private)
                &&& *final(self) == *old(self)
            },
            ({
                let v = sp_visibility(old(self).toks(), old(self).ppos());
                &&& final(self).ppos() == v.pos
                &&& filed_all(old(self).spec_reporter(), final(self).spec_reporter(), old(self).toks(), v.reps)
                &&& match v.fail {
                    None => r == Ok::<Visibility, DiagnosticReport>(v.vis),
                    Some(f) => r matches Err(d) && fails_as(old(self).toks(), d, f),
                }
            }),
    {
        proof {
            self.lemma_end_is_eof();
            lemma_filed_none(self.spec_reporter(), self.toks());
        }
        let ghost t = self.toks();
        let ghost r0 = self.spec_reporter();
        let (token_span, token_cursor) = match self.consume(TokenKind::Keyword(KeywordKind::Public)) {
            Ok(t) => t.pos(),
            Err(_) => {
                return Ok(Visibility::Private);
            },
        };
        *span = span.merged(&token_span);
        *cursor = token_cursor;
        proof {
            self.lemma_end_is_eof();
        }
        if self.consume(TokenKind::Punctuation(PunctuationKind::LeftParen)).is_err() {
            return Ok(Visibility::Public);
        }
        proof {
            self.lemma_end_is_eof();
        }
        let ghost sp = self.ppos();
        let scope_kind = self.current().kind;
        let scope_span = self.current().span;
        let visibility = match scope_kind {
            TokenKind::Keyword(KeywordKind::This) => Visibility::Private,
            TokenKind::Identifier => {
                let scoped = Visibility::scoped(self.current().lexeme.as_str());
                match scoped {
                    Some(scope) => scope,
                    None => {
                        let lexeme = self.current().lexeme.clone();
                        let d = self.diagnostic(ParserDiagnostic::InvalidVisibilityScope(lexeme));
                        let ghost mid = self.spec_reporter();
                        self.report(d);
                        proof {
                            lemma_filed_one(mid, self.spec_reporter(), t, d, Rep::BadScope(sp));
                        }
                        Visibility::Private
                    },
                }
            },
            _ => {
                let d = self.diagnostic(ParserDiagnostic::UnexpectedToken(scope_kind));
                let ghost mid = self.spec_reporter();
                self.report(d);
                proof {
                    lemma_filed_one(mid, self.spec_reporter(), t, d, Rep::Unexpected(sp));
                }
                Visibility::Private
            },
        };
        proof {
            self.lemma_end_is_eof();
        }
        self.advance();
        proof {
            self.lemma_end_is_eof();
        }
        self.consume(TokenKind::Punctuation(PunctuationKind::RightParen))?;
        *span = span.merged(&scope_span);
        Ok(visibility)
    }

    /// `fn name(param: type, ..): type { .. }` or `fn name(..) = expression`.
    #[verifier::rlimit(60)]
    fn stmt_function(&mut self, decl_only: Option<bool>) -> (r: DiagnosticResult<Statement>)
        requires
            old(self).wf(),
            old(self).cur().kind == TokenKind::Keyword(KeywordKind::Function),
        ensures
            r matches Ok(s) ==> stmt_grouped(s),
            r matches Ok(s) ==> !(s.kind is EndOfFile),
            final(self).moved_on(*old(self)),
            final(self).ppos() > old(self).ppos(),
            st_outcome(*old(self), *final(self), r, sp_function(old(self).toks(), old(self).ppos(), decl_only == Some(true))),
        decreases old(self).remaining(), 29nat,
    {
        proof {
            reveal(sp_function);
        }
        let ghost t = self.toks();
        let ghost p0 = self.ppos();
        proof {
            self.lemma_end_is_eof();
        }
        let (mut span, cursor) = self.consume(TokenKind::Keyword(KeywordKind::Function))?.pos();
        proof {
            self.lemma_end_is_eof();
        }
        let identifier = self.consume(TokenKind::Identifier)?.duplicate();
        proof {
            self.lemma_end_is_eof();
        }
        let _ = self.consume(TokenKind::Punctuation(PunctuationKind::LeftParen))?;
        let mut params: Vec<Parameter> = Vec::new();
        let ghost mut psks: Seq<ParamSk> = Seq::empty();
        loop
            invariant_except_break
                sp_params(t, p0 + 3, true) is Beyond || {
                    &&& sp_params(t, p0 + 3, true) == params_after(psks, sp_params(t, self.ppos(), psks.len() == 0))
                    &&& span == tok(t, p0).span
                },
            invariant
                self.moved_on(*old(self)),
                self.ppos() > old(self).ppos(),
                t == old(self).toks(),
                p0 == old(self).ppos(),
                self.ppos() >= p0 + 3,
                identifier.lexeme@ == tok(t, p0 + 1).lexeme@,
                identifier.span == tok(t, p0 + 1).span,
                identifier.cursor == tok(t, p0 + 1).cursor,
                cursor == tok(t, p0).cursor,
                tok(t, p0 + 1).kind == TokenKind::Identifier,
                tok(t, p0 + 2).kind == TokenKind::Punctuation(PunctuationKind::LeftParen),
                sp_params(t, p0 + 3, true) is Beyond || {
                    &&& params@.len() == psks.len()
                    &&& forall|i: int| 0 <= i < psks.len() ==> param_conforms(t, #[trigger] params@[i], psks[i])
                    &&& self.spec_reporter() == old(self).spec_reporter()
                },
            ensures
                sp_params(t, p0 + 3, true) is Beyond || {
                    &&& sp_params(t, p0 + 3, true) == ParamsR::Done(psks, (self.ppos() - 1) as nat)
                    &&& span == tok(t, p0).span.spec_merged(tok(t, (self.ppos() - 1) as nat).span)
                },
            decreases self.remaining(),
        {
            proof {
                reveal(sp_function);
                self.lemma_end_is_eof();
            }
            let ghost c = self.ppos();
            if self.check(TokenKind::Punctuation(PunctuationKind::RightParen)) {
                let rparen = self.advance().span;
                span = span.merged(&rparen);
                proof {
                    if !(sp_params(t, p0 + 3, true) is Beyond) {
                        assert(psks + Seq::<ParamSk>::empty() =~= psks);
                    }
                }
                break;
            }
            if params.len() > 0 {
                self.consume(TokenKind::Punctuation(PunctuationKind::Comma))?;
            }
            proof {
                self.lemma_end_is_eof();
            }
            let ghost c1 = self.ppos();
            let (pspan, pcursor) = self.current().pos();
            let is_mut = self.consume(TokenKind::Keyword(KeywordKind::Mut)).is_ok();
            proof {
                self.lemma_end_is_eof();
            }
            let ghost n = self.ppos();
            let param_name = self.consume(TokenKind::Identifier)?.duplicate();
            proof {
                self.lemma_end_is_eof();
            }
            self.expect(TokenKind::Punctuation(PunctuationKind::Colon))?;
            let ty = match self.parse_type()? {
                Some(ty) => ty,
                None => {
                    return Err(self.diagnostic(ParserDiagnostic::MissingTypeAnnotation(param_name.lexeme)));
                },
            };
            let full = pspan.merged(&ty.span);
            let ghost before = params@;
            params.push(Parameter {
                mutable: is_mut,
                symbol: AstSymbol::new(param_name.lexeme, param_name.span, param_name.cursor),
                span: full,
                cursor: pcursor,
                ty,
            });
            proof {
                if !(sp_params(t, p0 + 3, true) is Beyond) {
                    let here = ParamSk { at: c1, name: n, ty: (n + 2) as nat, mutable: is_mut };
                    assert(sp_params(t, c, psks.len() == 0) == params_after(seq![here], sp_params(t, self.ppos(), false)));
                    assert(param_conforms(t, params@[psks.len() as int], here));
                    let r = sp_params(t, self.ppos(), false);
                    if let ParamsR::Done(x, rp) = r {
                        assert(psks + (seq![here] + x) =~= psks.push(here) + x);
                    }
                    psks = psks.push(here);
                }
            }
        }
        let ghost rp = (self.ppos() - 1) as nat;
        let return_type: Option<Type> = if self.check(TokenKind::Punctuation(PunctuationKind::Colon)) {
            match self.parse_type()? {
                Some(ty) => {
                    span = span.merged(&ty.span);
                    Some(ty)
                },
                None => {
                    return Err(self.diagnostic(ParserDiagnostic::MissingTypeAnnotation(identifier.lexeme)));
                },
            }
        } else {
            None
        };
        proof {
            self.lemma_end_is_eof();
        }
        let body: Option<Box<Expression>> = if decl_only == Some(true) {
            self.consume(TokenKind::Punctuation(PunctuationKind::Semicolon))?;
            None
        } else {
            let kind = self.current().kind;
            match kind {
                TokenKind::Punctuation(PunctuationKind::LeftBrace) => {
                    let scope = self.parse_expression()?;
                    Some(Box::new(scope))
                },
                TokenKind::Operator(OperatorKind::Equals) => {
                    self.advance();
                    let expr = self.parse_expression()?;
                    Some(Box::new(expr))
                },
                TokenKind::Punctuation(PunctuationKind::Semicolon) => {
                    self.advance();
                    return Err(self.diagnostic(ParserDiagnostic::MissingFunctionBody));
                },
                _ => {
                    return Err(self.diagnostic(ParserDiagnostic::UnexpectedToken(kind)));
                },
            }
        };
        Ok(Statement {
            cursor,
            span,
            kind: StatementKind::FuncDecl(
                FuncDecl {
                    visibility: Visibility::Private,
                    symbol: AstSymbol::new(identifier.lexeme, identifier.span, identifier.cursor),
                    parameters: params,
                    return_type,
                    body,
                },
            ),
        })
    }

    /// An expression used as a statement.
    fn stmt_expression(&mut self) -> (r: DiagnosticResult<Statement>)
        requires
            old(self).wf(),
        ensures
            r matches Ok(s) ==> stmt_grouped(s),
            r matches Ok(s) ==> !(s.kind is EndOfFile),
            final(self).moved_on(*old(self)),
            final(self).progressed(*old(self)),
            st_outcome(*old(self), *final(self), r, expr_stmt(sp_expression(old(self).toks(), old(self).ppos()))),
        decreases old(self).remaining(), 30nat,
    {
        let expr = self.parse_expression()?;
        let current = self.current();
        Ok(Statement {
            span: expr.span.merged(&current.span),
            cursor: current.cursor,
            kind: StatementKind::Expression { inner: expr },
        })
    }

    /// `let [mut] name[: type] [= value]`
    fn stmt_var(&mut self) -> (r: DiagnosticResult<Statement>)
        requires
            old(self).wf(),
            old(self).cur().kind == TokenKind::Keyword(KeywordKind::Var),
        ensures
            r matches Ok(s) ==> stmt_grouped(s),
            r matches Ok(s) ==> !(s.kind is EndOfFile),
            final(self).moved_on(*old(self)),
            final(self).ppos() > old(self).ppos(),
            st_outcome(*old(self), *final(self), r, sp_var(old(self).toks(), old(self).ppos())),
        decreases old(self).remaining(), 29nat,
    {
        proof {
            reveal(sp_var);
        }
        proof {
            self.lemma_end_is_eof();
        }
        let (span, cursor) = self.consume(TokenKind::Keyword(KeywordKind::Var))?.pos();
        let is_mut = self.consume(TokenKind::Keyword(KeywordKind::Mut)).is_ok();
        let identifier = self.consume(TokenKind::Identifier)?.duplicate();
        let ty: Option<Type> = self.parse_type()?;
        let value: Option<Box<Expression>> = if self.consume(TokenKind::Operator(OperatorKind::Equals)).is_ok() {
            let expr = self.parse_expression()?;
            Some(Box::new(expr))
        } else {
            None
        };
        let ty_span = match &ty {
            Some(t) => Some(t.span),
            None => None,
        };
        let value_span = match &value {
            Some(v) => Some(v.span),
            None => None,
        };
        let full = span.merged(&identifier.span).maybe_merged(ty_span.as_ref()).maybe_merged(value_span.as_ref());
        Ok(Statement {
            cursor,
            span: full,
            kind: StatementKind::VarDecl(
                VarDecl {
                    visibility: Visibility::Private,
                    mutable: is_mut,
                    symbol: AstSymbol::new(identifier.lexeme, identifier.span, identifier.cursor),
                    ty,
                    value,
                },
            ),
        })
    }

    /// `return [value]`
    fn stmt_return(&mut self) -> (r: DiagnosticResult<Statement>)
        requires
            old(self).wf(),
            old(self).cur().kind == TokenKind::Keyword(KeywordKind::Return),
        ensures
            r matches Ok(s) ==> stmt_grouped(s),
            r matches Ok(s) ==> !(s.kind is EndOfFile),
            final(self).moved_on(*old(self)),
            final(self).ppos() > old(self).ppos(),
            st_outcome(*old(self), *final(self), r, sp_return(old(self).toks(), old(self).ppos())),
        decreases old(self).remaining(), 30nat,
    {
        proof {
            self.lemma_end_is_eof();
        }
        let (mut span, cursor) = self.consume(TokenKind::Keyword(KeywordKind::Return))?.pos();
        proof {
            self.lemma_end_is_eof();
        }
        let value: Option<Expression> = if self.is_at_end() || self.check(
            TokenKind::Punctuation(PunctuationKind::Semicolon),
        ) {
            None
        } else {
            let expr = self.parse_expression()?;
            span = span.merged(&expr.span);
            Some(expr)
        };
        Ok(Statement { cursor, span, kind: StatementKind::Return { value } })
    }

    /// `break[: label]` or `continue[: label]`
    fn stmt_loop_control(&mut self, kind: KeywordKind) -> (r: DiagnosticResult<Statement>)
        requires
            old(self).wf(),
            kind == KeywordKind::Break || kind == KeywordKind::Continue,
            old(self).cur().kind == TokenKind::Keyword(kind),
        ensures
            r matches Ok(s) ==> stmt_grouped(s),
            r matches Ok(s) ==> !(s.kind is EndOfFile),
            final(self).moved_on(*old(self)),
            final(self).ppos() > old(self).ppos(),
            r matches Ok(s) ==> (if kind == KeywordKind::Break { s.kind is Break } else { s.kind is Continue }),
            st_outcome(
                *old(self),
                *final(self),
                r,
                sp_jump(old(self).toks(), old(self).ppos(), kind == KeywordKind::Break),
            ),
    {
        proof {
            self.lemma_end_is_eof();
        }
        let (mut span, cursor) = self.consume(TokenKind::Keyword(kind))?.pos();
        proof {
            self.lemma_end_is_eof();
        }
        let label = if self.consume(TokenKind::Punctuation(PunctuationKind::Colon)).is_ok() {
            let identifier = self.consume(TokenKind::Identifier)?;
            let ispan = identifier.span;
            let symbol = AstSymbol::new(identifier.lexeme.clone(), identifier.span, identifier.cursor);
            span = span.merged(&ispan);
            Some(symbol)
        } else {
            None
        };
        Ok(Statement {
            cursor,
            span,
            kind: if kind == KeywordKind::Continue {
                StatementKind::Continue { label }
            } else {
                StatementKind::Break { label }
            },
        })
    }

    /// `import * as name from "lib"`, `import { a, b as c } from "lib"` or `import "lib"`.
    fn stmt_import(&mut self) -> (r: DiagnosticResult<Statement>)
        requires
            old(self).wf(),
            old(self).cur().kind == TokenKind::Keyword(KeywordKind::Import),
        ensures
            r matches Ok(s) ==> stmt_grouped(s),
            r matches Ok(s) ==> !(s.kind is EndOfFile),
            final(self).moved_on(*old(self)),
            final(self).ppos() > old(self).ppos(),
            st_outcome(*old(self), *final(self), r, sp_import(old(self).toks(), old(self).ppos())),
    {
        proof {
            self.lemma_end_is_eof();
            lemma_filed_none(self.spec_reporter(), self.toks());
        }
        let ghost t = self.toks();
        let ghost p = self.ppos();
        let ghost r0 = self.spec_reporter();
        let (span, cursor) = self.consume(TokenKind::Keyword(KeywordKind::Import))?.pos();
        proof {
            self.lemma_end_is_eof();
        }
        let kind = self.current().kind;
        let property_kind: ImportPropertyKind = match kind {
            TokenKind::Operator(OperatorKind::Asterisk) => {
                self.consume(TokenKind::Operator(OperatorKind::Asterisk))?;
                self.expect_lexeme("as")?;
                proof {
                    self.lemma_end_is_eof();
                }
                let identifier = self.consume(TokenKind::Identifier)?.lexeme.clone();
                self.expect_lexeme("from")?;
                ImportPropertyKind::All(identifier)
            },
            TokenKind::Punctuation(PunctuationKind::LeftBrace) => {
                self.consume(TokenKind::Punctuation(PunctuationKind::LeftBrace))?;
                let mut imports: Vec<Renameable> = Vec::new();
                let ghost mut xs: Seq<(nat, Option<nat>)> = Seq::empty();
                proof {
                    assert(items_prepend(xs, sp_items(t, p + 2, true)) == sp_items(t, p + 2, true)) by {
                        match sp_items(t, p + 2, true) {
                            ItemsR::Done(ys, rb) => {
                                assert(xs + ys =~= ys);
                            },
                            _ => {},
                        }
                    }
                }
                while !self.check(TokenKind::Punctuation(PunctuationKind::RightBrace))
                    invariant
                        self.moved_on(*old(self)),
                        self.toks() == t,
                        t == old(self).toks(),
                        p == old(self).ppos(),
                        self.spec_reporter() == r0,
                        r0 == old(self).spec_reporter(),
                        filed_all(r0, r0, t, Seq::<Rep>::empty()),
                        self.ppos() > p + 1,
                        tok(t, p + 1).kind == TokenKind::Punctuation(PunctuationKind::LeftBrace),
                        tok(t, p).kind == TokenKind::Keyword(KeywordKind::Import),
                        imports@.len() == xs.len(),
                        forall|j: int|
                            0 <= j < xs.len() ==> match (#[trigger] imports@[j], xs[j].1) {
                                (Renameable::Normally(a), None) => a@ == tok(t, xs[j].0).lexeme@,
                                (Renameable::Renamed(a, b), Some(m)) => a@ == tok(t, xs[j].0).lexeme@ && b@ == tok(
                                    t,
                                    m,
                                ).lexeme@,
                                _ => false,
                            },
                        sp_items(t, p + 2, true) == items_prepend(xs, sp_items(t, self.ppos(), xs.len() == 0)),
                        sp_import(t, p) == (match sp_items(t, p + 2, true) {
                            ItemsR::Done(ys, rb) => if !is_word(t, rb + 1, "from"@) {
                                StP { r: StR::Fail(Fail::Keyword("from"@, rb + 1)), pos: rb + 1, reps: Seq::empty() }
                            } else {
                                import_lib(t, p, rb + 2, ImportSk::Individual(ys))
                            },
                            ItemsR::Fail(f, pos) => StP { r: StR::Fail(f), pos, reps: Seq::empty() },
                        }),
                    decreases self.remaining(),
                {
                    proof {
                        self.lemma_end_is_eof();
                    }
                    let ghost c = self.ppos();
                    let ghost first = xs.len() == 0;
                    if imports.len() > 0 {
                        self.consume(TokenKind::Punctuation(PunctuationKind::Comma))?;
                    }
                    proof {
                        self.lemma_end_is_eof();
                    }
                    let ghost c1 = self.ppos();
                    let identifier = self.consume(TokenKind::Identifier)?.lexeme.clone();
                    proof {
                        self.lemma_end_is_eof();
                    }
                    let ghost alias: Option<nat> = None;
                    if self.expect_lexeme("as").is_ok() {
                        proof {
                            self.lemma_end_is_eof();
                        }
                        let name = self.consume(TokenKind::Identifier)?.lexeme.clone();
                        proof {
                            alias = Some((c1 + 2) as nat);
                        }
                        imports.push(Renameable::Renamed(identifier, name));
                    } else {
                        imports.push(Renameable::Normally(identifier));
                    }
                    proof {
                        let x = (c1, alias);
                        let rest = sp_items(t, self.ppos(), false);
                        assert(sp_items(t, c, first) == items_prepend(seq![x], rest));
                        match rest {
                            ItemsR::Done(ys, rb) => {
                                assert(xs + (seq![x] + ys) =~= xs.push(x) + ys);
                            },
                            _ => {},
                        }
                        xs = xs.push(x);
                    }
                }
                proof {
                    assert(sp_items(t, self.ppos(), xs.len() == 0) == ItemsR::Done(Seq::empty(), self.ppos()));
                    assert(xs + Seq::<(nat, Option<nat>)>::empty() =~= xs);
                }
                self.consume(TokenKind::Punctuation(PunctuationKind::RightBrace))?;
                self.expect_lexeme("from")?;
                ImportPropertyKind::Individual(imports)
            },
            TokenKind::Literal(LiteralKind::String) => ImportPropertyKind::Bare,
            _ => {
                return Err(self.diagnostic(ParserDiagnostic::UnexpectedToken(kind)));
            },
        };
        proof {
            self.lemma_end_is_eof();
        }
        let lib_name = self.consume(TokenKind::Literal(LiteralKind::String))?.lexeme.clone();
        Ok(Statement { cursor, span, kind: StatementKind::Import { kind: property_kind, path: lib_name } })
    }

    /// A type annotation `: name`, if the current token is a `:`.
    fn parse_type(&mut self) -> (r: DiagnosticResult<Option<Type>>)
        requires
            old(self).wf(),
        ensures
            final(self).moved_on(*old(self)),
            old(self).cur().kind != TokenKind::Punctuation(PunctuationKind::Colon) ==> {
                &&& r == Ok::<Option<Type>, DiagnosticReport>(None)
                &&& *final(self) == *old(self)
            },
            old(self).cur().kind == TokenKind::Punctuation(PunctuationKind::Colon) && !old(self).stream_at_end()
                ==> final(self).ppos() > old(self).ppos(),
            old(self).cur().kind == TokenKind::Punctuation(PunctuationKind::Colon) && !old(self).stream_at_end() ==> {
                let n = (old(self).ppos() + 1) as nat;
                let k = old(self).spec_stream().token_at(n);
                &&& final(self).spec_reporter() == old(self).spec_reporter()
                &&& k.kind == TokenKind::Identifier ==> {
                    &&& r matches Ok(Some(y)) && type_named(y.kind, k.lexeme@) && y.span == k.span && y.cursor == k.cursor
                    &&& final(self).ppos() == n + 1
                }
                &&& k.kind != TokenKind::Identifier ==> {
                    &&& r == Err::<Option<Type>, DiagnosticReport>(
                        report_at(k, ParserDiagnostic::ExpectedToken(TokenKind::Identifier, k.kind)),
                    )
                    &&& final(self).ppos() == n
                }
            },
    {
        if self.consume(TokenKind::Punctuation(PunctuationKind::Colon)).is_err() {
            return Ok(None);
        }
        let identifier = self.consume(TokenKind::Identifier)?;
        let kind = TypeKind::from_name(identifier.lexeme.as_str());
        Ok(Some(Type { kind, cursor: identifier.cursor, span: identifier.span }))
    }
}

} // verus!
