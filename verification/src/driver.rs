//! From the command line to the paths that are visited, and their order.

use vstd::prelude::*;
use vstd::string::StringExecFns;

verus! {

/// What a run does: whether it reads paths from the input stream, and the one path given
/// on the command line, if any. The stream comes first.
#[derive(Clone, Debug, PartialEq, Eq)]
pub struct Plan {
    pub stream: bool,
    pub path: Option<String>,
}

/// Why a command line gives no plan. In each case the usage line is printed and nothing
/// is processed.
#[derive(Clone, Copy, Debug, PartialEq, Eq, Structural)]
pub enum UsageError {
    /// `-h` was given.
    HelpRequested,
    /// A second path was given.
    MultiplePaths,
    /// Neither a path nor `-i` was given.
    NoInput,
}

/// What the caller does next.
#[derive(Clone, Debug, PartialEq, Eq)]
pub enum Step {
    /// Read the next line of the input stream and visit the path on it.
    ReadLine,
    /// Visit this path.
    Visit(String),
    /// Nothing is left to do.
    Finish,
}

/// The plan for the arguments `args`, read from left to right, where `stream` and `path`
/// are what the arguments before them have set. The first argument that is an error
/// decides.
pub open spec fn scan(args: Seq<String>, stream: bool, path: Option<String>) -> Result<
    Plan,
    UsageError,
>
    decreases args.len(),
{
    if args.len() == 0 {
        if !stream && path is None {
            Err(UsageError::NoInput)
        } else {
            Ok(Plan { stream, path })
        }
    } else if args.first()@ == "-h"@ {
        Err(UsageError::HelpRequested)
    } else if args.first()@ == "-i"@ {
        scan(args.drop_first(), true, path)
    } else if path is Some {
        Err(UsageError::MultiplePaths)
    } else {
        scan(args.drop_first(), stream, Some(args.first()))
    }
}

/// The plan for the arguments that follow the program's name.
pub fn parse_args(args: &Vec<String>) -> (r: Result<Plan, UsageError>)
    ensures
        r == scan(args@, false, None),
{
    let help = "-h".to_owned();
    let from_stream = "-i".to_owned();
    let mut stream = false;
    let mut path: Option<String> = None;
    let mut i: usize = 0;
    assert(args@.skip(0) =~= args@);
    while i < args.len()
        invariant
            i <= args@.len(),
            help@ == "-h"@,
            from_stream@ == "-i"@,
            scan(args@, false, None) == scan(args@.skip(i as int), stream, path),
        decreases args@.len() - i,
    {
        let arg = &args[i];
        assert(args@.skip(i as int).first() == *arg);
        assert(args@.skip(i as int).drop_first() =~= args@.skip(i + 1));
        if *arg == help {
            return Err(UsageError::HelpRequested);
        } else if *arg == from_stream {
            stream = true;
        } else if path.is_some() {
            return Err(UsageError::MultiplePaths);
        } else {
            path = Some(arg.clone());
        }
        i += 1;
    }
    if !stream && path.is_none() {
        Err(UsageError::NoInput)
    } else {
        Ok(Plan { stream, path })
    }
}

/// The usage line.
pub open spec fn usage_of(program: Seq<char>) -> Seq<char> {
    "usage: "@ + program + " [-i] [-h] [path]"@
}

/// The lines that report a usage error: whatever the error, the usage line alone.
pub open spec fn usage_report_of(program: Seq<char>, error: UsageError) -> Seq<Seq<char>> {
    seq![usage_of(program)]
}

/// The usage line for the program called `program`.
pub fn usage_line(program: &str) -> (line: String)
    ensures
        line@ == usage_of(program@),
{
    let mut line = "usage: ".to_owned();
    line.append(program);
    line.append(" [-i] [-h] [path]");
    line
}

/// The lines to write to the diagnostic stream for a usage error. The run then ends with
/// exit code 2.
pub fn usage_report(program: &str, error: UsageError) -> (lines: Vec<String>)
    ensures
        lines@.len() == usage_report_of(program@, error).len(),
        forall|i: int|
            0 <= i < lines@.len() ==> (#[trigger] lines@[i])@ == usage_report_of(
                program@,
                error,
            )[i],
{
    let mut lines: Vec<String> = Vec::new();
    lines.push(usage_line(program));
    lines
}

impl Plan {
    /// The step that comes next: lines are read while the stream is open, then the path
    /// is visited, then the run is over.
    pub open spec fn step_of(self) -> Step {
        if self.stream {
            Step::ReadLine
        } else {
            match self.path {
                Some(path) => Step::Visit(path),
                None => Step::Finish,
            }
        }
    }

    /// The plan after its next step: a path that was visited is gone.
    pub open spec fn after_step(self) -> Plan {
        if self.stream {
            self
        } else {
            Plan { stream: false, path: None }
        }
    }

    /// Gives the next step and takes it out of the plan.
    pub fn next_step(&mut self) -> (step: Step)
        ensures
            step == old(self).step_of(),
            *final(self) == old(self).after_step(),
    {
        if self.stream {
            Step::ReadLine
        } else {
            let step = match &self.path {
                Some(path) => Step::Visit(path.clone()),
                None => Step::Finish,
            };
            self.path = None;
            step
        }
    }

    /// Notes that the input stream has ended.
    pub fn end_of_stream(&mut self)
        ensures
            *final(self) == (Plan { stream: false, path: old(self).path }),
    {
        self.stream = false;
    }
}

/// White space: the characters with Unicode's property `White_Space`.
pub open spec fn is_space(c: char) -> bool {
    let v = c as u32;
    ||| 0x09 <= v <= 0x0d
    ||| v == 0x20
    ||| v == 0x85
    ||| v == 0xa0
    ||| v == 0x1680
    ||| 0x2000 <= v <= 0x200a
    ||| v == 0x2028
    ||| v == 0x2029
    ||| v == 0x202f
    ||| v == 0x205f
    ||| v == 0x3000
}

/// `inner` is `line` without the white space at its two ends.
pub open spec fn is_trim_of(line: Seq<char>, inner: Seq<char>) -> bool {
    exists|start: int, end: int|
        {
            &&& 0 <= start <= end <= line.len()
            &&& #[trigger] line.subrange(start, end) == inner
            &&& forall|i: int| 0 <= i < start ==> is_space(#[trigger] line[i])
            &&& forall|i: int| end <= i < line.len() ==> is_space(#[trigger] line[i])
            &&& inner.len() > 0 ==> !is_space(inner.first()) && !is_space(inner.last())
        }
}

/// `str::trim` on `line`, as an owned string: the line without its leading and trailing
/// white space.
#[verifier::external_body]
fn trim_line(line: &str) -> (inner: String)
    ensures
        is_trim_of(line@, inner@),
{
    line.trim().to_owned()
}

/// The path on a line of the input stream: the line without the white space around it.
pub fn stream_target(line: &str) -> (path: String)
    ensures
        is_trim_of(line@, path@),
{
    trim_line(line)
}

/// A line has one trimmed form only.
pub proof fn trim_is_unique(line: Seq<char>, first: Seq<char>, second: Seq<char>)
    requires
        is_trim_of(line, first),
        is_trim_of(line, second),
    ensures
        first == second,
{
    let (a, b) = choose|start: int, end: int|
        {
            &&& 0 <= start <= end <= line.len()
            &&& #[trigger] line.subrange(start, end) == first
            &&& forall|i: int| 0 <= i < start ==> is_space(#[trigger] line[i])
            &&& forall|i: int| end <= i < line.len() ==> is_space(#[trigger] line[i])
            &&& first.len() > 0 ==> !is_space(first.first()) && !is_space(first.last())
        };
    let (c, d) = choose|start: int, end: int|
        {
            &&& 0 <= start <= end <= line.len()
            &&& #[trigger] line.subrange(start, end) == second
            &&& forall|i: int| 0 <= i < start ==> is_space(#[trigger] line[i])
            &&& forall|i: int| end <= i < line.len() ==> is_space(#[trigger] line[i])
            &&& second.len() > 0 ==> !is_space(second.first()) && !is_space(second.last())
        };
    if first.len() > 0 {
        assert(first.first() == line[a] && first.last() == line[b - 1]);
        if second.len() > 0 {
            assert(second.first() == line[c] && second.last() == line[d - 1]);
            assert(a == c && b == d);
        } else {
            assert(a < c || a >= d);
        }
    } else if second.len() > 0 {
        assert(second.first() == line[c] && second.last() == line[d - 1]);
        assert(c < a || c >= b);
    }
    assert(first =~= second);
}

} // verus!
