use vstd::prelude::*;

use crate::ast::Ast;
use crate::diagnostic::reporter::Reporter;
use crate::diagnostic::DiagnosticReport;
use crate::diagnostic::store::DiagnosticEntry;
use crate::lexer::grammar::{lex, SpecToken};
use crate::lexer::tokens::kind::{KeywordKind, LiteralKind, TokenKind};
use crate::lexer::tokens::{Token, TokenStream};
use crate::lexer::LumaLexer;
use crate::parser::grammar::{rep_matches, sp_program, st_conforms, Prog};
use crate::parser::parse_expr::stmt_grouped;
use crate::parser::{
    has_radix_prefix, lemma_valid_is_safe, radix_literal_value, radix_ok, radix_valid_from, token_parseable,
    tokens_parseable, LumaParser,
};
use crate::semantics::analyzer::{
    diagnostics_of, entry_ready, filed_under, has_error, resolution_reports, trace_names, trace_reports, traced,
    traces_names, traces_reports, EntryTrace, LumaAnalyzer,
};
use crate::semantics::ctx::AnalyzerContext;
use crate::semantics::source::{ParsedCodeKind, ParsedCodeSource};
use crate::source::CodeSource;
use vstd::string::StringSliceAdditionalSpecFns;

verus! {

/// `before` is kept at the start of `after`, under the same name and source.
pub open spec fn kept(before: Reporter, after: Reporter) -> bool {
    &&& after.spec_source() == before.spec_source()
    &&& after.spec_name() == before.spec_name()
    &&& after.spec_entries().len() >= before.spec_entries().len()
    &&& after.spec_entries().take(before.spec_entries().len() as int) == before.spec_entries()
}

/// A token the parser reads to the end: no class declaration (see `token_parseable`) and no
/// radix literal that cannot be read (see `radix_ok`).
pub open spec fn spec_token_parseable(t: SpecToken) -> bool {
    &&& t.kind != TokenKind::Keyword(KeywordKind::Class)
    &&& (t.kind == TokenKind::Literal(LiteralKind::Integer) && has_radix_prefix(t.lexeme)) ==> radix_literal_value(
        t.lexeme,
    ) is Some
}

/// Text whose tokens the parser reads to the end: no class declaration, and no radix literal
/// that cannot be read (the statement loop would report it again and again, without end).
pub open spec fn parseable_text(input: Seq<u8>) -> bool {
    forall|i: int| 0 <= i < lex(input).0.len() ==> spec_token_parseable(#[trigger] lex(input).0[i])
}

/// Scans `input`; the diagnostics of scanning are filed under `reporter`'s source, as
/// `name:lexer`, after those already there.
pub fn tokenize_input(reporter: &mut Reporter, input: &str) -> (r: TokenStream)
    requires
        input.spec_bytes().len() < u32::MAX,
    ensures
        r.spec_tokens().map_values(|t: Token| t@) == lex(input.spec_bytes()).0,
        r.spec_pos() == 0,
        kept(*old(reporter), *final(reporter)),
        final(reporter).spec_entries().len() == old(reporter).spec_entries().len() + lex(input.spec_bytes()).1.len(),
        forall|i: int|
            0 <= i < lex(input.spec_bytes()).1.len() ==> (#[trigger] final(reporter).spec_entries()[old(reporter).spec_entries().len() + i]).diagnostic
                == lex(input.spec_bytes()).1[i],
{
    let bytes = input.as_bytes();
    let mut lexer = LumaLexer::new(bytes, reporter);
    let ghost child0 = lexer.spec_reporter();
    let tokens = lexer.scan();
    let ghost child = lexer.spec_reporter();
    reporter.absorb(lexer.into_reporter());
    proof {
        assert(reporter.spec_entries().take(old(reporter).spec_entries().len() as int) =~= old(reporter).spec_entries());
        assert forall|i: int| 0 <= i < lex(input.spec_bytes()).1.len() implies (#[trigger] reporter.spec_entries()[old(reporter).spec_entries().len() + i]).diagnostic
            == lex(input.spec_bytes()).1[i] by {
            assert(reporter.spec_entries()[old(reporter).spec_entries().len() + i] == child.spec_entries()[i]);
            assert(child0.spec_entries().len() == 0);
            assert(child.spec_entries()[child0.spec_entries().len() + i] == child.spec_entries()[i]);
        }
    }
    tokens
}

/// Parses a token stream that ends with the end of the file into a syntax tree; the
/// diagnostics of parsing are filed as `name:parser`, after those already there. Every
/// radix literal must be readable: the statement loop reads and reports one that is not
/// again and again, without end.
pub fn parse_tokens(reporter: &mut Reporter, tokens: TokenStream) -> (r: Ast)
    requires
        tokens_parseable(tokens.spec_tokens()),
        radix_valid_from(tokens.spec_tokens(), 0),
        tokens.spec_pos() == 0,
    ensures
        kept(*old(reporter), *final(reporter)),
        forall|i: int| 0 <= i < r.statements@.len() ==> stmt_grouped(#[trigger] r.statements@[i]),
        match sp_program(tokens.spec_tokens(), 0) {
            Prog::Done(sks, reps) => {
                &&& r.statements@.len() == sks.len()
                &&& forall|i: int|
                    0 <= i < sks.len() ==> st_conforms(tokens.spec_tokens(), #[trigger] r.statements@[i], sks[i])
                &&& final(reporter).spec_entries().len() == old(reporter).spec_entries().len() + reps.len()
                &&& forall|k: int|
                    0 <= k < reps.len() ==> rep_matches(
                        tokens.spec_tokens(),
                        (#[trigger] final(reporter).spec_entries()[old(reporter).spec_entries().len() + k]).diagnostic,
                        reps[k],
                    )
            },
            Prog::Beyond => true,
        },
{
    proof {
        lemma_valid_is_safe(tokens.spec_tokens(), 0);
    }
    let ghost toks = tokens.spec_tokens();
    let mut parser = LumaParser::new(tokens, reporter);
    let ghost p0 = parser;
    let ast = parser.parse();
    let ghost child = parser.spec_reporter();
    reporter.absorb(parser.into_reporter());
    proof {
        assert(reporter.spec_entries().take(old(reporter).spec_entries().len() as int) =~= old(reporter).spec_entries());
        if let Prog::Done(sks, reps) = sp_program(toks, 0) {
            assert forall|k: int| 0 <= k < reps.len() implies rep_matches(
                toks,
                (#[trigger] reporter.spec_entries()[old(reporter).spec_entries().len() + k]).diagnostic,
                reps[k],
            ) by {
                assert(p0.spec_reporter().spec_entries().len() == 0);
                assert(rep_matches(toks, child.spec_entries()[p0.spec_reporter().spec_entries().len() + k].diagnostic, reps[k]));
                assert(reporter.spec_entries()[old(reporter).spec_entries().len() + k] == child.spec_entries()[k]);
            }
        }
    }
    ast
}

/// Reads `input` as a source of no file, and parses it.
pub fn parse_source(reporter: &mut Reporter, input: &str) -> (r: ParsedCodeSource)
    requires
        input.spec_bytes().len() < u32::MAX,
        parseable_text(input.spec_bytes()),
    ensures
        r.source.content@ == input@,
        r.source.file_path is None,
        r.code matches ParsedCodeKind::Ast(a) && forall|i: int|
            0 <= i < a.statements@.len() ==> stmt_grouped(#[trigger] a.statements@[i]),
        kept(*old(reporter), *final(reporter)),
        r.code matches ParsedCodeKind::Ast(a) && exists|toks: Seq<Token>|
            #![trigger sp_program(toks, 0)]
            toks.map_values(|t: Token| t@) == lex(input.spec_bytes()).0 && match sp_program(toks, 0) {
                Prog::Done(sks, reps) => {
                    let e1 = old(reporter).spec_entries().len() + lex(input.spec_bytes()).1.len();
                    &&& a.statements@.len() == sks.len()
                    &&& forall|i: int| 0 <= i < sks.len() ==> st_conforms(toks, #[trigger] a.statements@[i], sks[i])
                    &&& final(reporter).spec_entries().len() == e1 + reps.len()
                    &&& forall|k: int|
                        0 <= k < reps.len() ==> rep_matches(
                            toks,
                            (#[trigger] final(reporter).spec_entries()[e1 + k]).diagnostic,
                            reps[k],
                        )
                },
                Prog::Beyond => true,
            },
{
    let code_source = CodeSource::from_text(input);
    let ghost bytes = input.spec_bytes();
    let text = code_source.source();
    proof {
        lemma_bytes_of_same_text(text, input);
    }
    let tokens = tokenize_input(reporter, text);
    let ghost r1 = *reporter;
    proof {
        lemma_lex_ends(bytes);
        lemma_parseable(tokens.spec_tokens(), lex(bytes).0);
    }
    let ghost toks = tokens.spec_tokens();
    let ast = parse_tokens(reporter, tokens);
    proof {
        assert(toks.map_values(|t: Token| t@) == lex(bytes).0);
        assert(r1.spec_entries().len() == old(reporter).spec_entries().len() + lex(bytes).1.len());
        assert(reporter.spec_entries().take(old(reporter).spec_entries().len() as int) =~= r1.spec_entries().take(
            old(reporter).spec_entries().len() as int,
        ));
    }
    ParsedCodeSource::new(code_source, ParsedCodeKind::Ast(ast))
}

/// The lexer's tokens end with the end of the file.
proof fn lemma_lex_ends(s: Seq<u8>)
    ensures
        lex(s).0.len() > 0,
        lex(s).0.last().kind == TokenKind::EndOfFile,
{
}

/// Two strings with the same characters have the same bytes.
proof fn lemma_bytes_of_same_text(a: &str, b: &str)
    requires
        a@ == b@,
    ensures
        a.spec_bytes() == b.spec_bytes(),
{
}

/// The lexer's tokens are parseable when the text is.
proof fn lemma_parseable(toks: Seq<Token>, spec: Seq<SpecToken>)
    requires
        toks.map_values(|t: Token| t@) == spec,
        forall|i: int| 0 <= i < spec.len() ==> spec_token_parseable(#[trigger] spec[i]),
        spec.len() > 0,
        spec.last().kind == TokenKind::EndOfFile,
    ensures
        tokens_parseable(toks),
        radix_valid_from(toks, 0),
{
    assert forall|i: int| 0 <= i < toks.len() implies token_parseable(#[trigger] toks[i]) && radix_ok(toks[i]) by {
        assert(toks.map_values(|t: Token| t@)[i] == toks[i]@);
        assert(spec_token_parseable(spec[i]));
    }
    assert(toks.map_values(|t: Token| t@)[toks.len() - 1] == toks.last()@);
}

/// Takes `source` through the default stages of analysis, with empty symbol tables; the
/// diagnostics of analysis are filed as `name:analyzer:stage`, after those already there:
/// those of name resolution, then, where it reported no error, those of lowering.
/// Gives whether name resolution reported no error.
pub fn analyze_source(reporter: &mut Reporter, source: ParsedCodeSource) -> (r: bool)
    requires
        forall|c: AnalyzerContext|
            c.input == source && c.symbol_table.wf() && c.symbol_table.depth == 0
                && c.symbol_table.value_table.spec_symbols().len() == 0
                && c.symbol_table.value_table.view().visible.len() == 0 ==> #[trigger] entry_ready(c),
    ensures
        kept(*old(reporter), *final(reporter)),
        exists|c: AnalyzerContext|
            c.input == source && c.symbol_table.wf() && c.symbol_table.depth == 0
                && c.symbol_table.value_table.spec_symbols().len() == 0 && r == !has_error(#[trigger] resolution_reports(c)),
        exists|t: EntryTrace, after: AnalyzerContext|
            {
                &&& #[trigger] traced(t, after)
                &&& t.before.input == source
                &&& t.before.symbol_table.wf()
                &&& t.before.symbol_table.depth == 0
                &&& t.before.symbol_table.value_table.spec_symbols().len() == 0
                &&& r == !has_error(resolution_reports(t.before))
                &&& diagnostics_of(final(reporter).spec_entries()).skip(old(reporter).spec_entries().len() as int)
                    == trace_reports(t)
                &&& filed_under(
                    *old(reporter),
                    *final(reporter),
                    trace_names(t, old(reporter).spec_name() + ":"@ + "analyzer"@),
                )
            },
{
    let mut analyzer = LumaAnalyzer::new(reporter);
    analyzer.add_entry(source);
    let ghost c = analyzer.spec_entries()[0];
    assert(entry_ready(c));
    let ghost inner0 = analyzer.spec_reporter();
    let r = analyzer.analyze();
    let ghost inner = analyzer.spec_reporter();
    let ghost ts = analyzer.spec_traces();
    let ghost after = analyzer.spec_entries()[0];
    reporter.absorb(analyzer.into_reporter());
    proof {
        assert(reporter.spec_entries().take(old(reporter).spec_entries().len() as int) =~= old(reporter).spec_entries());
        assert(r == !has_error(resolution_reports(c)));
        assert(ts.len() == 1);
        let t = ts[0];
        assert(ts.drop_last() =~= Seq::<EntryTrace>::empty());
        assert(ts.last() == t);
        assert(traces_reports(ts.drop_last()) =~= Seq::<DiagnosticReport>::empty());
        assert(traces_names(ts.drop_last(), inner0.spec_name()) =~= Seq::<Seq<char>>::empty());
        assert(traces_reports(ts) =~= trace_reports(t));
        assert(traces_names(ts, inner0.spec_name()) =~= trace_names(t, inner0.spec_name()));
        assert(traced(t, after));
        let n = old(reporter).spec_entries().len() as int;
        assert(diagnostics_of(reporter.spec_entries()).skip(n) =~= diagnostics_of(inner.spec_entries()).skip(0)) by {
            assert forall|i: int| 0 <= i < inner.spec_entries().len() implies diagnostics_of(
                reporter.spec_entries(),
            ).skip(n)[i] == diagnostics_of(inner.spec_entries()).skip(0)[i] by {
                assert(reporter.spec_entries()[n + i] == inner.spec_entries()[i]);
            }
        }
        let names = trace_names(t, inner0.spec_name());
        assert forall|i: int| 0 <= i < names.len() implies (#[trigger] reporter.spec_entries()[n + i]).reporter_name@
            == names[i] by {
            assert(reporter.spec_entries()[n + i] == inner.spec_entries()[0 + i]);
        }
        assert(filed_under(*old(reporter), *reporter, names));
    }
    r
}

} // verus!
