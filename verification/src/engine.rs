//! From a language and a file's bytes to the lines of text that its capture query yields.

use crate::registry::{Grammar, LanguageSpec};
use streaming_iterator::StreamingIterator;
use tree_sitter::{Language, Parser, Query, QueryCursor};
use vstd::prelude::*;
use vstd::slice::slice_subrange;
use vstd::utf8::{decode_utf8, encode_utf8, valid_utf8};

verus! {

/// The byte range of one captured node: from `start` up to, not including, `end`.
#[derive(Clone, Copy, Debug, PartialEq, Eq, Structural)]
pub struct Capture {
    pub start: usize,
    pub end: usize,
}

/// Why a file yielded no lines. The first two speak of a broken language definition, not
/// of the file.
#[derive(Clone, Copy, Debug, PartialEq, Eq, Structural)]
pub enum ExtractError {
    /// The parser did not accept the grammar.
    GrammarSetup,
    /// The capture query did not compile against the grammar.
    QueryCompile,
    /// The parser returned no tree.
    ParseFailed,
    /// A captured range does not lie within the source.
    CaptureOutsideSource,
}

/// `tree_sitter::Language`, the handle to a grammar. Nothing is known of what it holds.
#[verifier::external_type_specification]
#[verifier::external_body]
pub struct ExLanguage(tree_sitter::Language);

/// The grammar that a `tree_sitter::Language` handle stands for.
pub uninterp spec fn language_grammar(language: Language) -> Grammar;

/// What tree-sitter finds when the query `query` runs over the tree that the grammar makes
/// of `source`: the matches in the order found, each with the byte ranges of its captures
/// in the order in which the query declares them; or the step that failed.
pub uninterp spec fn query_outcome(grammar: Grammar, query: Seq<char>, source: Seq<u8>) -> Result<
    Seq<Seq<Capture>>,
    ExtractError,
>;

/// The matches as sequences.
pub open spec fn matches_view(found: Vec<Vec<Capture>>) -> Seq<Seq<Capture>> {
    Seq::new(found@.len(), |i: int| found@[i]@)
}

/// The lines as sequences of characters.
pub open spec fn lines_view(lines: Vec<String>) -> Seq<Seq<char>> {
    Seq::new(lines@.len(), |i: int| lines@[i]@)
}

/// The capture lies within a source of `len` bytes.
pub open spec fn capture_within(capture: Capture, len: int) -> bool {
    capture.start <= capture.end <= len
}

/// Every capture of every match lies within a source of `len` bytes.
pub open spec fn all_within(found: Seq<Seq<Capture>>, len: int) -> bool {
    forall|i: int, j: int|
        0 <= i < found.len() && 0 <= j < found[i].len() ==> capture_within(
            #[trigger] found[i][j],
            len,
        )
}

/// The text of a capture: its bytes decoded as UTF-8, or the empty text where they are
/// not valid UTF-8.
pub open spec fn capture_text(capture: Capture, source: Seq<u8>) -> Seq<char> {
    let bytes = source.subrange(capture.start as int, capture.end as int);
    if valid_utf8(bytes) {
        decode_utf8(bytes)
    } else {
        Seq::empty()
    }
}

/// The lines of one match: the text of each capture, in order.
pub open spec fn match_lines(captures: Seq<Capture>, source: Seq<u8>) -> Seq<Seq<char>> {
    Seq::new(captures.len(), |j: int| capture_text(captures[j], source))
}

/// The lines of all matches: those of the first match, then those of the second, and so on.
pub open spec fn rendered(found: Seq<Seq<Capture>>, source: Seq<u8>) -> Seq<Seq<char>>
    decreases found.len(),
{
    if found.len() == 0 {
        Seq::empty()
    } else {
        rendered(found.drop_last(), source) + match_lines(found.last(), source)
    }
}

/// The lines that an outcome of the query gives: a failure stays what it is, and matches
/// are rendered where they lie within the source.
pub open spec fn extraction(
    outcome: Result<Seq<Seq<Capture>>, ExtractError>,
    source: Seq<u8>,
) -> Result<Seq<Seq<char>>, ExtractError> {
    match outcome {
        Err(e) => Err(e),
        Ok(found) => if all_within(found, source.len() as int) {
            Ok(rendered(found, source))
        } else {
            Err(ExtractError::CaptureOutsideSource)
        },
    }
}

/// The outcome of a query as sequences.
pub open spec fn outcome_view(outcome: Result<Vec<Vec<Capture>>, ExtractError>) -> Result<
    Seq<Seq<Capture>>,
    ExtractError,
> {
    match outcome {
        Ok(found) => Ok(matches_view(found)),
        Err(e) => Err(e),
    }
}

/// The result of an extraction as sequences.
pub open spec fn result_view(result: Result<Vec<String>, ExtractError>) -> Result<
    Seq<Seq<char>>,
    ExtractError,
> {
    match result {
        Ok(lines) => Ok(lines_view(lines)),
        Err(e) => Err(e),
    }
}

/// The handle of `tree_sitter_c::LANGUAGE`. The contract only says which grammar the
/// handle stands for.
#[verifier::external_body]
fn c_language() -> (language: Language)
    ensures
        language_grammar(language) == Grammar::C,
{
    tree_sitter_c::LANGUAGE.into()
}

/// The handle of `tree_sitter_cpp::LANGUAGE`. The contract only says which grammar the
/// handle stands for.
#[verifier::external_body]
fn cpp_language() -> (language: Language)
    ensures
        language_grammar(language) == Grammar::Cpp,
{
    tree_sitter_cpp::LANGUAGE.into()
}

/// The handle of `tree_sitter_python::LANGUAGE`. The contract only says which grammar the
/// handle stands for.
#[verifier::external_body]
fn python_language() -> (language: Language)
    ensures
        language_grammar(language) == Grammar::Python,
{
    tree_sitter_python::LANGUAGE.into()
}

/// The handle of `tree_sitter_rust::LANGUAGE`. The contract only says which grammar the
/// handle stands for.
#[verifier::external_body]
fn rust_language() -> (language: Language)
    ensures
        language_grammar(language) == Grammar::Rust,
{
    tree_sitter_rust::LANGUAGE.into()
}

/// The handle of a grammar.
fn grammar_language(grammar: Grammar) -> (language: Language)
    ensures
        language_grammar(language) == grammar,
{
    match grammar {
        Grammar::C => c_language(),
        Grammar::Cpp => cpp_language(),
        Grammar::Python => python_language(),
        Grammar::Rust => rust_language(),
    }
}

/// One run of tree-sitter: `Parser::set_language`, `Query::new`, `Parser::parse` and
/// `QueryCursor::matches` over the root node, handing out each match's captures as byte
/// ranges (`Node::start_byte`, `Node::end_byte`). The contract claims that the result
/// depends on the grammar, the query text and the source bytes alone, and gives it its
/// name; it claims nothing of what the ranges are. It is called with the handles that
/// `grammar_language` gives and with the query texts of `LanguageSpec` only.
#[verifier::external_body]
fn run_query(language: &Language, query: &str, source: &[u8]) -> (r: Result<
    Vec<Vec<Capture>>,
    ExtractError,
>)
    ensures
        outcome_view(r) == query_outcome(language_grammar(*language), query@, source@),
{
    let mut parser = Parser::new();
    parser.set_language(language).map_err(|_| ExtractError::GrammarSetup)?;
    let query = Query::new(language, query).map_err(|_| ExtractError::QueryCompile)?;
    let tree = parser.parse(source, None).ok_or(ExtractError::ParseFailed)?;
    let mut cursor = QueryCursor::new();
    let mut matches = cursor.matches(&query, tree.root_node(), source);
    let mut found = Vec::new();
    while let Some(m) = matches.next() {
        let ranges = m.captures().iter().map(|c| Capture { start: c.node.start_byte(), end: c.node.end_byte() });
        found.push(ranges.collect());
    }
    Ok(found)
}

/// `std::str::from_utf8` on `bytes`, as an owned string: the decoded text where the bytes
/// are valid UTF-8, and `None` where they are not.
#[verifier::external_body]
fn decode_text(bytes: &[u8]) -> (r: Option<String>)
    ensures
        r is Some <==> valid_utf8(bytes@),
        r matches Some(text) ==> text@ == decode_utf8(bytes@),
{
    std::str::from_utf8(bytes).ok().map(|text| text.to_owned())
}

/// The text of one capture.
pub fn text_of(capture: Capture, source: &[u8]) -> (text: String)
    requires
        capture_within(capture, source@.len() as int),
    ensures
        text@ == capture_text(capture, source@),
{
    let bytes = slice_subrange(source, capture.start, capture.end);
    match decode_text(bytes) {
        Some(text) => text,
        None => String::new(),
    }
}

/// Whether every capture lies within a source of `len` bytes.
pub fn captures_within(found: &Vec<Vec<Capture>>, len: usize) -> (b: bool)
    ensures
        b == all_within(matches_view(*found), len as int),
{
    let mut i: usize = 0;
    while i < found.len()
        invariant
            i <= found@.len(),
            forall|a: int, b: int|
                0 <= a < i && 0 <= b < found@[a]@.len() ==> capture_within(
                    #[trigger] found@[a]@[b],
                    len as int,
                ),
        decreases found@.len() - i,
    {
        let captures = &found[i];
        let mut j: usize = 0;
        while j < captures.len()
            invariant
                j <= captures@.len(),
                i < found@.len(),
                captures@ == found@[i as int]@,
                forall|b: int|
                    0 <= b < j ==> capture_within(#[trigger] captures@[b], len as int),
            decreases captures@.len() - j,
        {
            let capture = captures[j];
            if !(capture.start <= capture.end && capture.end <= len) {
                assert(matches_view(*found)[i as int][j as int] == capture);
                return false;
            }
            j += 1;
        }
        i += 1;
    }
    true
}

proof fn rendered_step(found: Seq<Seq<Capture>>, source: Seq<u8>, i: int)
    requires
        0 <= i < found.len(),
    ensures
        rendered(found.take(i + 1), source) == rendered(found.take(i), source) + match_lines(
            found[i],
            source,
        ),
{
    assert(found.take(i + 1).drop_last() =~= found.take(i));
    assert(found.take(i + 1).last() == found[i]);
}

/// The lines of the matches, one per capture.
pub fn render_captures(found: &Vec<Vec<Capture>>, source: &[u8]) -> (lines: Vec<String>)
    requires
        all_within(matches_view(*found), source@.len() as int),
    ensures
        lines_view(lines) == rendered(matches_view(*found), source@),
{
    let mut lines: Vec<String> = Vec::new();
    let ghost all = matches_view(*found);
    let mut i: usize = 0;
    assert(lines_view(lines) =~= rendered(all.take(0), source@));
    while i < found.len()
        invariant
            i <= found@.len(),
            all == matches_view(*found),
            all_within(all, source@.len() as int),
            lines_view(lines) == rendered(all.take(i as int), source@),
        decreases found@.len() - i,
    {
        let captures = &found[i];
        let ghost before = lines_view(lines);
        let mut j: usize = 0;
        assert(lines_view(lines) =~= before + match_lines(captures@.take(0), source@));
        while j < captures.len()
            invariant
                j <= captures@.len(),
                i < found@.len(),
                all == matches_view(*found),
                captures@ == all[i as int],
                all_within(all, source@.len() as int),
                lines_view(lines) == before + match_lines(captures@.take(j as int), source@),
            decreases captures@.len() - j,
        {
            let capture = captures[j];
            assert(capture == all[i as int][j as int]);
            let text = text_of(capture, source);
            let ghost earlier = lines_view(lines);
            lines.push(text);
            assert(lines_view(lines) =~= earlier.push(text@));
            assert(match_lines(captures@.take(j + 1), source@) =~= match_lines(
                captures@.take(j as int),
                source@,
            ).push(capture_text(capture, source@)));
            assert(lines_view(lines) =~= before + match_lines(captures@.take(j + 1), source@));
            j += 1;
        }
        assert(captures@.take(j as int) =~= captures@);
        proof {
            rendered_step(all, source@, i as int);
        }
        i += 1;
    }
    assert(all.take(i as int) =~= all);
    lines
}

/// The lines that come of an outcome of the query: the failure that it reports, the
/// rendered matches, or `CaptureOutsideSource` where a capture does not lie within the
/// source.
pub fn lines_from(outcome: Result<Vec<Vec<Capture>>, ExtractError>, source: &[u8]) -> (r: Result<
    Vec<String>,
    ExtractError,
>)
    ensures
        result_view(r) == extraction(outcome_view(outcome), source@),
{
    match outcome {
        Err(e) => Err(e),
        Ok(found) => {
            if captures_within(&found, source.len()) {
                Ok(render_captures(&found, source))
            } else {
                Err(ExtractError::CaptureOutsideSource)
            }
        },
    }
}

/// Parses `source` with the grammar of `spec`, runs the query of `spec` over the tree and
/// returns one line per capture: matches in the order found, the captures of a match in
/// the order in which the query declares them.
pub fn extract(spec: LanguageSpec, source: &[u8]) -> (r: Result<Vec<String>, ExtractError>)
    ensures
        result_view(r) == extraction(
            query_outcome(spec.grammar_of(), spec.query_of(), source@),
            source@,
        ),
{
    let language = grammar_language(spec.grammar());
    let outcome = run_query(&language, spec.query_text(), source);
    lines_from(outcome, source)
}

/// Whether an outcome of the query shows that the language is broken: the two failures
/// of setting up, and nothing else.
pub open spec fn setup_outcome(outcome: Result<Seq<Seq<Capture>>, ExtractError>) -> Result<
    (),
    ExtractError,
> {
    match outcome {
        Err(ExtractError::GrammarSetup) => Err(ExtractError::GrammarSetup),
        Err(ExtractError::QueryCompile) => Err(ExtractError::QueryCompile),
        _ => Ok(()),
    }
}

/// What setting up the language `spec` gives, as a run over an empty source shows it.
pub open spec fn setup_of(spec: LanguageSpec) -> Result<(), ExtractError> {
    setup_outcome(query_outcome(spec.grammar_of(), spec.query_of(), Seq::<u8>::empty()))
}

/// What setting up the languages gives: the first failure, in the order C, C++,
/// Python, Rust, or `Ok` where there is none.
pub open spec fn setup_of_all() -> Result<(), ExtractError> {
    if setup_of(LanguageSpec::C) is Err {
        setup_of(LanguageSpec::C)
    } else if setup_of(LanguageSpec::Cpp) is Err {
        setup_of(LanguageSpec::Cpp)
    } else if setup_of(LanguageSpec::Python) is Err {
        setup_of(LanguageSpec::Python)
    } else {
        setup_of(LanguageSpec::Rust)
    }
}

/// Sets up the grammar and the query of `spec` once, on an empty source, and says
/// whether the parser accepted the grammar and the query compiled.
pub fn check_setup(spec: LanguageSpec) -> (r: Result<(), ExtractError>)
    ensures
        r == setup_of(spec),
{
    let source: Vec<u8> = Vec::new();
    let language = grammar_language(spec.grammar());
    assert(source@ =~= Seq::<u8>::empty());
    match run_query(&language, spec.query_text(), source.as_slice()) {
        Err(ExtractError::GrammarSetup) => Err(ExtractError::GrammarSetup),
        Err(ExtractError::QueryCompile) => Err(ExtractError::QueryCompile),
        _ => Ok(()),
    }
}

/// Sets up every language once, so that a broken one is found before any file is read.
pub fn check_languages() -> (r: Result<(), ExtractError>)
    ensures
        r == setup_of_all(),
{
    let c = check_setup(LanguageSpec::C);
    if c.is_err() {
        return c;
    }
    let cpp = check_setup(LanguageSpec::Cpp);
    if cpp.is_err() {
        return cpp;
    }
    let python = check_setup(LanguageSpec::Python);
    if python.is_err() {
        return python;
    }
    check_setup(LanguageSpec::Rust)
}

/// Every line is the text of one of the captures.
pub proof fn line_is_capture_text(found: Seq<Seq<Capture>>, source: Seq<u8>, k: int)
    requires
        0 <= k < rendered(found, source).len(),
    ensures
        exists|i: int, j: int|
            0 <= i < found.len() && 0 <= j < found[i].len() && rendered(found, source)[k]
                == capture_text(#[trigger] found[i][j], source),
    decreases found.len(),
{
    let head = rendered(found.drop_last(), source);
    if k < head.len() {
        line_is_capture_text(found.drop_last(), source, k);
        let (i, j) = choose|i: int, j: int|
            0 <= i < found.drop_last().len() && 0 <= j < found.drop_last()[i].len() && head[k]
                == capture_text(#[trigger] found.drop_last()[i][j], source);
        assert(found[i][j] == found.drop_last()[i][j]);
    } else {
        let i = found.len() - 1;
        let j = k - head.len();
        assert(rendered(found, source)[k] == capture_text(found[i][j], source));
    }
}

/// Every line of an extraction that succeeds is empty, or is encoded by a contiguous run
/// of the source's bytes.
pub proof fn line_is_slice_of_source(
    outcome: Result<Seq<Seq<Capture>>, ExtractError>,
    source: Seq<u8>,
    k: int,
)
    requires
        extraction(outcome, source) is Ok,
        0 <= k < extraction(outcome, source)->Ok_0.len(),
    ensures
        ({
            let line = extraction(outcome, source)->Ok_0[k];
            line.len() == 0 || exists|start: int, end: int|
                0 <= start <= end <= source.len() && #[trigger] source.subrange(start, end)
                    == encode_utf8(line)
        }),
{
    let found = outcome->Ok_0;
    line_is_capture_text(found, source, k);
    let (i, j) = choose|i: int, j: int|
        0 <= i < found.len() && 0 <= j < found[i].len() && rendered(found, source)[k]
            == capture_text(#[trigger] found[i][j], source);
    let capture = found[i][j];
    assert(capture_within(capture, source.len() as int));
    let bytes = source.subrange(capture.start as int, capture.end as int);
    if valid_utf8(bytes) {
        vstd::utf8::decode_utf8_encode_utf8(bytes);
    }
}

/// The same language and the same bytes give the same lines.
pub proof fn same_source_same_lines(spec: LanguageSpec, first: Seq<u8>, second: Seq<u8>)
    requires
        first == second,
    ensures
        extraction(query_outcome(spec.grammar_of(), spec.query_of(), first), first) == extraction(
            query_outcome(spec.grammar_of(), spec.query_of(), second),
            second,
        ),
{
}

} // verus!
