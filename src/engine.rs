//! The grammar-based parser and the structural query engine, and the steps
//! of a job built on them: accepting a request, and mining one file.
use vstd::prelude::*;
use crate::aggregate::{aggregate, lemma_grouping_is_determined, all_ok, ranges_ok, CaptureError, CaptureSet, RawCapture};
use vstd::string::StringExecFns;

verus! {

#[verifier::external_type_specification]
#[verifier::external_body]
pub struct ExLanguage(tree_sitter::Language);

#[verifier::external_type_specification]
#[verifier::external_body]
pub struct ExQuery(tree_sitter::Query);

#[verifier::external_type_specification]
#[verifier::external_body]
pub struct ExQueryError(tree_sitter::QueryError);

#[verifier::external_type_specification]
#[verifier::external_body]
pub struct ExTree(tree_sitter::Tree);

#[verifier::external_type_specification]
#[verifier::external_body]
pub struct ExParser(tree_sitter::Parser);

/// Whether a pattern compiles for a grammar. Whether `Query::new` accepts a
/// pattern depends on the grammar and the pattern alone.
pub uninterp spec fn pattern_compiles(language: tree_sitter::Language, pattern: Seq<char>) -> bool;

/// Whether a grammar's version lies in the range that the parser supports.
pub uninterp spec fn grammar_compatible(language: tree_sitter::Language) -> bool;

/// The grammar a query was compiled for.
pub uninterp spec fn query_grammar(query: tree_sitter::Query) -> tree_sitter::Language;

/// The pattern a query was compiled from.
pub uninterp spec fn query_pattern(query: tree_sitter::Query) -> Seq<char>;

/// The capture names of a pattern compiled for a grammar, in index order.
pub uninterp spec fn capture_names_in(language: tree_sitter::Language, pattern: Seq<char>) -> Seq<
    Seq<char>,
>;

/// The captures that a pattern compiled for a grammar finds, in traversal
/// order, in the syntax tree that the grammar gives for `source`.
pub uninterp spec fn captures_in(
    language: tree_sitter::Language,
    pattern: Seq<char>,
    source: Seq<u8>,
) -> Seq<RawCapture>;

/// The grammar a syntax tree was parsed with.
pub uninterp spec fn tree_grammar(tree: tree_sitter::Tree) -> tree_sitter::Language;

/// The bytes that a syntax tree was parsed from.
pub uninterp spec fn tree_text(tree: tree_sitter::Tree) -> Seq<u8>;

/// The views of a list of strings.
pub open spec fn string_views(v: Seq<String>) -> Seq<Seq<char>> {
    v.map_values(|s: String| s@)
}

/// Relies on tree_sitter::Query::new: compiles a pattern for a grammar, or
/// reports why it cannot. When a name that the grammar lacks runs to the end
/// of the pattern, `Query::new` slices past the end and panics; a pattern
/// that ends in a newline always ends the name before that.
#[verifier::external_body]
fn compile_query(language: tree_sitter::Language, pattern: &str) -> (r: Result<
    tree_sitter::Query,
    tree_sitter::QueryError,
>)
    requires
        pattern@.len() > 0,
        pattern@.last() == '\n',
    ensures
        r is Ok <==> pattern_compiles(language, pattern@),
        r matches Ok(q) ==> query_grammar(q) == language && query_pattern(q) == pattern@,
{
    tree_sitter::Query::new(language, pattern)
}

/// Relies on the `message` field of tree_sitter::QueryError.
#[verifier::external_body]
fn query_error_message(e: &tree_sitter::QueryError) -> (r: String) {
    e.message.clone()
}

/// Relies on tree_sitter::Query::capture_names: the query's capture names,
/// indexed as the captures it yields refer to them.
#[verifier::external_body]
fn capture_names(query: &tree_sitter::Query) -> (r: Vec<String>)
    ensures
        string_views(r@) == capture_names_in(query_grammar(*query), query_pattern(*query)),
{
    query.capture_names().to_vec()
}

/// A parser and the grammar assigned to it, if any. It never gets a timeout
/// or a cancellation flag. Only the wrappers below touch its fields.
struct GrammarParser {
    parser: tree_sitter::Parser,
    grammar: Option<tree_sitter::Language>,
}

/// Relies on tree_sitter::Parser::new: a parser with no grammar assigned.
#[verifier::external_body]
fn new_parser() -> (r: GrammarParser)
    ensures
        r.grammar is None,
{
    GrammarParser { parser: tree_sitter::Parser::new(), grammar: None }
}

/// Relies on tree_sitter::Parser::set_language: `true` when the grammar was
/// assigned, `false` when its version is outside the supported range, in
/// which case the parser is left as it was.
#[verifier::external_body]
fn set_parser_language(p: &mut GrammarParser, language: tree_sitter::Language) -> (r: bool)
    ensures
        r == grammar_compatible(language),
        r ==> final(p).grammar == Some(language),
        !r ==> final(p).grammar == old(p).grammar,
{
    match p.parser.set_language(language) {
        Ok(()) => {
            p.grammar = Some(language);
            true
        },
        Err(_) => false,
    }
}

/// Relies on tree_sitter::Parser::parse with no earlier tree: a syntax tree
/// of `source` in the assigned grammar. It gives `None` only when no grammar
/// is assigned, a timeout expired or a cancellation flag was set.
#[verifier::external_body]
fn parse_source(p: &mut GrammarParser, source: &[u8]) -> (r: Option<tree_sitter::Tree>)
    ensures
        final(p).grammar == old(p).grammar,
        old(p).grammar is Some ==> r is Some,
        r matches Some(t) ==> tree_text(t) == source@ && old(p).grammar == Some(tree_grammar(t)),
{
    p.parser.parse(source, None)
}

/// Relies on tree_sitter::QueryCursor::captures over the tree's root node,
/// with a fresh cursor: every capture of `query` in traversal order, as the
/// index of its name and the byte range of its node. The text predicates are
/// read from `source`, which must be the text the tree was parsed from.
#[verifier::external_body]
fn query_captures(query: &tree_sitter::Query, tree: &tree_sitter::Tree, source: &[u8]) -> (r: Vec<
    RawCapture,
>)
    requires
        tree_text(*tree) == source@,
        tree_grammar(*tree) == query_grammar(*query),
    ensures
        r@ == captures_in(query_grammar(*query), query_pattern(*query), source@),
        forall|i: int|
            0 <= i < r@.len() ==> (#[trigger] r@[i]).name_index < capture_names_in(
                query_grammar(*query),
                query_pattern(*query),
            ).len(),
        ranges_ok(r@, source@.len()),
{
    let mut cursor = tree_sitter::QueryCursor::new();
    cursor.captures(query, tree.root_node(), source).map(
        |(m, ix)| RawCapture {
            name_index: m.captures[ix].index as usize,
            start: m.captures[ix].node.start_byte(),
            end: m.captures[ix].node.end_byte(),
        },
    ).collect()
}

/// Why a job was refused before any file was looked at.
#[derive(Clone, Debug, PartialEq, Eq)]
pub enum JobError {
    /// The function asked for is not offered.
    NotFound,
    /// The request is malformed or the pattern does not compile; the text
    /// says why.
    InvalidArgument(String),
}

/// Why one file has no captures.
#[derive(Clone, Copy, Debug, PartialEq, Eq)]
pub enum FileError {
    /// The file could not be read.
    ReadFailure,
    /// The grammar gave no syntax tree for the file.
    SyntaxError,
    /// The matches could not be read off the file.
    MatchFailure(CaptureError),
}

/// A job that has been accepted: the grammar, its compiled query, shared
/// read-only by the workers, the query's capture names, and how many workers
/// run it.
pub struct Job {
    language: tree_sitter::Language,
    query: tree_sitter::Query,
    names: Vec<String>,
    workers: usize,
}

impl Job {
    #[verifier::type_invariant]
    spec fn names_match(&self) -> bool {
        &&& query_grammar(self.query) == self.language
        &&& string_views(self.names@) == capture_names_in(self.language, query_pattern(self.query))
    }

    pub closed spec fn language_spec(&self) -> tree_sitter::Language {
        self.language
    }

    /// The pattern the job's query was compiled from.
    pub closed spec fn pattern_spec(&self) -> Seq<char> {
        query_pattern(self.query)
    }

    pub closed spec fn names_spec(&self) -> Seq<String> {
        self.names@
    }

    pub closed spec fn workers_spec(&self) -> usize {
        self.workers
    }

    /// The query's capture names.
    pub fn names(&self) -> (r: &Vec<String>)
        ensures
            r@ == self.names_spec(),
    {
        &self.names
    }

    /// How many workers run the job.
    pub fn workers(&self) -> (r: usize)
        ensures
            r == self.workers_spec(),
    {
        self.workers
    }
}

/// Miner for one grammar, fixed when the process starts.
pub struct Breeze {
    pub language: tree_sitter::Language,
}

/// The number of workers a request asks for: `num_jobs` when given,
/// otherwise `available`, or one when that is zero.
pub open spec fn workers_for(num_jobs: Option<usize>, available: usize) -> usize {
    match num_jobs {
        Some(n) => n,
        None => if available == 0 {
            1
        } else {
            available
        },
    }
}

/// Whether a request's own fields are acceptable: a non-empty pattern and,
/// when a worker count is given, one of at least one.
pub open spec fn request_ok(pattern: Seq<char>, num_jobs: Option<usize>) -> bool {
    &&& pattern.len() > 0
    &&& num_jobs != Some(0usize)
}

/// The name of the one function offered.
pub open spec fn is_parse_query(function: Seq<char>) -> bool {
    function == "parse-query"@
}

/// Whether `function` names the query-mining function.
pub fn routes_to_parse_query(function: &String) -> (r: bool)
    ensures
        r == is_parse_query(function@),
{
    let target = "parse-query".to_owned();
    *function == target
}

/// Checks a request's own fields and picks the worker count.
pub fn check_request(pattern: &str, num_jobs: Option<usize>, available: usize) -> (r: Result<
    usize,
    JobError,
>)
    ensures
        r is Ok <==> request_ok(pattern@, num_jobs),
        r matches Ok(w) ==> w == workers_for(num_jobs, available) && w >= 1,
        r matches Err(e) ==> e is InvalidArgument,
{
    if pattern.is_empty() {
        return Err(JobError::InvalidArgument("the query pattern is empty".to_owned()));
    }
    match num_jobs {
        Some(n) => {
            if n == 0 {
                Err(JobError::InvalidArgument("num_jobs must be at least 1".to_owned()))
            } else {
                Ok(n)
            }
        },
        None => {
            if available == 0 {
                Ok(1)
            } else {
                Ok(available)
            }
        },
    }
}

impl Breeze {
    pub fn new(language: tree_sitter::Language) -> (r: Breeze)
        ensures
            r.language == language,
    {
        Breeze { language }
    }

    /// Accepts a request: checks its fields, then compiles the pattern once
    /// for the whole job. A bad field or a pattern that does not compile
    /// refuses the job with `InvalidArgument` before any file is touched.
    /// The pattern is compiled with a newline after it, which does not change
    /// what it matches.
    pub fn start_job(&self, pattern: &str, num_jobs: Option<usize>, available: usize) -> (r:
        Result<Job, JobError>)
        ensures
            r is Ok <==> request_ok(pattern@, num_jobs) && pattern_compiles(
                self.language,
                pattern@.push('\n'),
            ),
            r matches Ok(job) ==> {
                &&& job.workers_spec() == workers_for(num_jobs, available)
                &&& job.workers_spec() >= 1
                &&& job.language_spec() == self.language
                &&& job.pattern_spec() == pattern@.push('\n')
                &&& string_views(job.names_spec()) == capture_names_in(
                    self.language,
                    pattern@.push('\n'),
                )
            },
            r matches Err(e) ==> e is InvalidArgument,
    {
        let workers = match check_request(pattern, num_jobs, available) {
            Ok(w) => w,
            Err(e) => {
                return Err(e);
            },
        };
        let terminated = pattern.to_owned().concat("\n");
        proof {
            reveal_strlit("\n");
            assert(terminated@ =~= pattern@.push('\n'));
        }
        match compile_query(self.language, terminated.as_str()) {
            Ok(query) => {
                let names = capture_names(&query);
                Ok(Job { language: self.language, query, names, workers })
            },
            Err(e) => Err(JobError::InvalidArgument(query_error_message(&e))),
        }
    }

    /// Mines one file of a job with the job's grammar. `source` is the
    /// file's content, or `None` when it could not be read. A readable file
    /// is mined whenever the grammar's version is supported; its captures
    /// are those the job's query finds in the file's syntax tree, grouped as
    /// `aggregate` does with the job's capture names.
    pub fn mine_file(&self, job: &Job, source: Option<Vec<u8>>) -> (r: Result<
        CaptureSet,
        FileError,
    >)
        ensures
            source is None <==> r == Err::<CaptureSet, FileError>(FileError::ReadFailure),
            source is Some ==> (r is Ok <==> grammar_compatible(job.language_spec())),
            source is Some && !grammar_compatible(job.language_spec()) ==> r == Err::<
                CaptureSet,
                FileError,
            >(FileError::SyntaxError),
            r matches Ok(set) ==> set.is_grouping_of(
                captures_in(job.language_spec(), job.pattern_spec(), source.unwrap()@),
                source.unwrap()@,
                job.names_spec(),
            ),
    {
        proof {
            use_type_invariant(job);
        }
        let ghost input = source;
        let bytes = match source {
            None => {
                return Err(FileError::ReadFailure);
            },
            Some(b) => b,
        };
        let mut p = new_parser();
        if !set_parser_language(&mut p, job.language) {
            return Err(FileError::SyntaxError);
        }
        let tree = match parse_source(&mut p, bytes.as_slice()) {
            None => {
                return Err(FileError::SyntaxError);
            },
            Some(t) => t,
        };
        let raw = query_captures(&job.query, &tree, bytes.as_slice());
        assert(all_ok(raw@, job.names@.len(), bytes@.len()));
        match aggregate(&job.names, &raw, bytes.as_slice()) {
            Ok(set) => {
                assert(input.unwrap() == bytes);
                Ok(set)
            },
            Err(e) => Err(FileError::MatchFailure(e)),
        }
    }
}

/// Mining is determined by the grammar, the pattern and the file's bytes:
/// two jobs started from the same pattern for the same grammar (with any
/// worker counts, in one run or in two) that both mine the same bytes get
/// the same snippets under each capture name.
pub proof fn lemma_mining_is_determined(
    job_a: Job,
    job_b: Job,
    source: Seq<u8>,
    a: CaptureSet,
    b: CaptureSet,
)
    requires
        job_a.language_spec() == job_b.language_spec(),
        job_a.pattern_spec() == job_b.pattern_spec(),
        a.is_grouping_of(
            captures_in(job_a.language_spec(), job_a.pattern_spec(), source),
            source,
            job_a.names_spec(),
        ),
        b.is_grouping_of(
            captures_in(job_b.language_spec(), job_b.pattern_spec(), source),
            source,
            job_b.names_spec(),
        ),
    ensures
        a.snippet_map() == b.snippet_map(),
{
    lemma_grouping_is_determined(
        a,
        b,
        captures_in(job_a.language_spec(), job_a.pattern_spec(), source),
        source,
        job_a.names_spec(),
        job_b.names_spec(),
    );
}

} // verus!
