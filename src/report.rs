use vstd::prelude::*;
use vstd::string::StringExecFns;
use crate::lines::{line_number_at, newlines, push_char};
use crate::metrics::Metrics;

verus! {

/// The decimal digit for `d < 10`.
pub open spec fn digit(d: nat) -> char {
    seq!['0', '1', '2', '3', '4', '5', '6', '7', '8', '9'][d as int]
}

/// The decimal numeral of `n`, without leading zeros.
pub open spec fn decimal(n: nat) -> Seq<char>
    decreases n,
{
    if n < 10 {
        seq![digit(n)]
    } else {
        decimal(n / 10).push(digit(n % 10))
    }
}

/// The decimal digit for `d`.
fn digit_char(d: u128) -> (c: char)
    requires
        d < 10,
    ensures
        c == digit(d as nat),
{
    match d {
        0 => '0',
        1 => '1',
        2 => '2',
        3 => '3',
        4 => '4',
        5 => '5',
        6 => '6',
        7 => '7',
        8 => '8',
        _ => '9',
    }
}

/// Writes the decimal numeral of `n`.
fn numeral(n: u128) -> (r: String)
    ensures
        r@ == decimal(n as nat),
    decreases n,
{
    let mut r = if n < 10 {
        String::new()
    } else {
        numeral(n / 10)
    };
    push_char(&mut r, digit_char(n % 10));
    proof {
        if n < 10 {
            assert(r@ =~= seq![digit(n as nat)]);
        }
    }
    r
}

/// Why a file could not be tallied.
pub enum FileError {
    /// The path names no regular file.
    NotFound,
    /// The file could not be opened; the cause is described.
    OpenFailure(String),
    /// Line `line` (counted from 1) could not be read; the cause is described.
    ReadFailure { line: u128, cause: String },
}

/// The error for a file whose bytes could not be read as text past byte `offset`: a read
/// failure on the line in which that byte stands.
pub fn read_failure(bytes: &Vec<u8>, offset: usize, cause: String) -> (e: FileError)
    requires
        offset <= bytes@.len(),
    ensures
        match e {
            FileError::ReadFailure { line, cause: c } => line == 1 + newlines(
                bytes@.subrange(0, offset as int),
            ) && c == cause,
            _ => false,
        },
{
    FileError::ReadFailure { line: line_number_at(bytes, offset), cause }
}

/// What the program reports when it is given no file.
pub open spec fn usage_text() -> Seq<char> {
    "No files provided. Usage: program <file1> <file2> ..."@
}

/// The report of a file that was tallied: a header naming it, then the three counts.
pub open spec fn report_spec(arg: Seq<char>, m: Metrics) -> Seq<char> {
    "File: "@ + arg + "\n\t"@ + decimal(m.lines as nat) + "\t"@ + decimal(m.words as nat) + "\t"@
        + decimal(m.chars as nat) + " "@ + arg + "\n"@
}

/// The description of an error.
pub open spec fn cause_spec(arg: Seq<char>, e: FileError) -> Seq<char> {
    match e {
        FileError::NotFound => "File not found: "@ + arg,
        FileError::OpenFailure(d) => d@,
        FileError::ReadFailure { line, cause } => "Error reading line "@ + decimal(line as nat)
            + ": "@ + cause@,
    }
}

/// The message on the error stream for a file that could not be tallied.
pub open spec fn error_spec(arg: Seq<char>, e: FileError) -> Seq<char> {
    match e {
        FileError::ReadFailure { .. } => "Error processing file '"@ + arg + "': "@ + cause_spec(
            arg,
            e,
        ) + "\n"@,
        _ => "Couldn't open file '"@ + arg + "': "@ + cause_spec(arg, e) + "\n"@,
    }
}

/// Writes the usage message.
pub fn usage_message() -> (r: String)
    ensures
        r@ == usage_text(),
{
    "No files provided. Usage: program <file1> <file2> ...".to_owned()
}

/// Writes the report of a tallied file.
pub fn report_text(arg: &str, m: &Metrics) -> (r: String)
    ensures
        r@ == report_spec(arg@, *m),
{
    let mut r = String::new();
    r.append("File: ");
    r.append(arg);
    r.append("\n\t");
    r.append(numeral(m.lines).as_str());
    r.append("\t");
    r.append(numeral(m.words).as_str());
    r.append("\t");
    r.append(numeral(m.chars).as_str());
    r.append(" ");
    r.append(arg);
    r.append("\n");
    r
}

/// Writes the message for a file that could not be tallied.
pub fn error_text(arg: &str, e: &FileError) -> (r: String)
    ensures
        r@ == error_spec(arg@, *e),
{
    let mut r = String::new();
    match e {
        FileError::ReadFailure { .. } => {
            r.append("Error processing file '");
        },
        _ => {
            r.append("Couldn't open file '");
        },
    }
    r.append(arg);
    r.append("': ");
    match e {
        FileError::NotFound => {
            r.append("File not found: ");
            r.append(arg);
        },
        FileError::OpenFailure(d) => {
            r.append(d.as_str());
        },
        FileError::ReadFailure { line, cause } => {
            r.append("Error reading line ");
            r.append(numeral(*line).as_str());
            r.append(": ");
            r.append(cause.as_str());
        },
    }
    r.append("\n");
    r
}

/// What the program writes: the text for the output stream and for the error stream.
pub struct Output {
    pub out: String,
    pub err: String,
}

/// The output-stream text for one file.
pub open spec fn file_out(arg: Seq<char>, outcome: Result<Metrics, FileError>) -> Seq<char> {
    match outcome {
        Ok(m) => report_spec(arg, m),
        Err(_) => Seq::empty(),
    }
}

/// The error-stream text for one file.
pub open spec fn file_err(arg: Seq<char>, outcome: Result<Metrics, FileError>) -> Seq<char> {
    match outcome {
        Ok(_) => Seq::empty(),
        Err(e) => error_spec(arg, e),
    }
}

/// The output-stream text for a run over files, in the order given.
pub open spec fn files_out(args: Seq<Seq<char>>, outcomes: Seq<Result<Metrics, FileError>>) -> Seq<
    char,
>
    decreases args.len(),
{
    if args.len() == 0 || outcomes.len() == 0 {
        Seq::empty()
    } else {
        files_out(args.drop_last(), outcomes.drop_last()) + file_out(args.last(), outcomes.last())
    }
}

/// The error-stream text for a run over files, in the order given.
pub open spec fn files_err(args: Seq<Seq<char>>, outcomes: Seq<Result<Metrics, FileError>>) -> Seq<
    char,
>
    decreases args.len(),
{
    if args.len() == 0 || outcomes.len() == 0 {
        Seq::empty()
    } else {
        files_err(args.drop_last(), outcomes.drop_last()) + file_err(args.last(), outcomes.last())
    }
}

/// The error-stream text of a whole run: the usage message when no file was given.
pub open spec fn run_err(args: Seq<Seq<char>>, outcomes: Seq<Result<Metrics, FileError>>) -> Seq<
    char,
> {
    if args.len() == 0 {
        usage_text() + "\n"@
    } else {
        files_err(args, outcomes)
    }
}

/// The texts of a run's arguments.
pub open spec fn arg_views(args: Seq<String>) -> Seq<Seq<char>> {
    args.map_values(|a: String| a@)
}

/// Writes what the program reports for one file.
pub fn render_file(arg: &str, outcome: &Result<Metrics, FileError>) -> (o: Output)
    ensures
        o.out@ == file_out(arg@, *outcome),
        o.err@ == file_err(arg@, *outcome),
{
    match outcome {
        Ok(m) => Output { out: report_text(arg, m), err: String::new() },
        Err(e) => Output { out: String::new(), err: error_text(arg, e) },
    }
}

/// Writes what the program reports for a run: `outcomes[i]` is what became of `args[i]`.
pub fn render_run(args: &Vec<String>, outcomes: &Vec<Result<Metrics, FileError>>) -> (o: Output)
    requires
        args@.len() == outcomes@.len(),
    ensures
        o.out@ == files_out(arg_views(args@), outcomes@),
        o.err@ == run_err(arg_views(args@), outcomes@),
{
    let ghost views = arg_views(args@);
    if args.len() == 0 {
        let mut err = usage_message();
        err.append("\n");
        return Output { out: String::new(), err };
    }
    let mut out = String::new();
    let mut err = String::new();
    let mut i: usize = 0;
    while i < args.len()
        invariant
            i <= args@.len(),
            args@.len() == outcomes@.len(),
            views == arg_views(args@),
            out@ == files_out(views.subrange(0, i as int), outcomes@.subrange(0, i as int)),
            err@ == files_err(views.subrange(0, i as int), outcomes@.subrange(0, i as int)),
        decreases args@.len() - i,
    {
        let o = render_file(args[i].as_str(), &outcomes[i]);
        assert(views.subrange(0, i + 1).drop_last() =~= views.subrange(0, i as int));
        assert(outcomes@.subrange(0, i + 1).drop_last() =~= outcomes@.subrange(0, i as int));
        out.append(o.out.as_str());
        err.append(o.err.as_str());
        i = i + 1;
    }
    assert(views.subrange(0, i as int) =~= views);
    assert(outcomes@.subrange(0, i as int) =~= outcomes@);
    Output { out, err }
}

/// A file that could not be found puts nothing on the output stream, so no header names it,
/// and its message on the error stream says that it was not found.
pub proof fn lemma_missing_file(arg: Seq<char>)
    ensures
        file_out(arg, Err(FileError::NotFound)) == Seq::<char>::empty(),
        file_err(arg, Err(FileError::NotFound)) == "Couldn't open file '"@ + arg + "': "@
            + "File not found: "@ + arg + "\n"@,
{
}

/// The reports of a run are those of its first part followed by those of the rest, on both
/// streams: each file's report comes in the order of the arguments.
pub proof fn lemma_run_in_order(
    args1: Seq<Seq<char>>,
    outcomes1: Seq<Result<Metrics, FileError>>,
    args2: Seq<Seq<char>>,
    outcomes2: Seq<Result<Metrics, FileError>>,
)
    requires
        args1.len() == outcomes1.len(),
        args2.len() == outcomes2.len(),
    ensures
        files_out(args1 + args2, outcomes1 + outcomes2) == files_out(args1, outcomes1) + files_out(
            args2,
            outcomes2,
        ),
        files_err(args1 + args2, outcomes1 + outcomes2) == files_err(args1, outcomes1) + files_err(
            args2,
            outcomes2,
        ),
    decreases args2.len(),
{
    if args2.len() == 0 {
        assert(args1 + args2 =~= args1);
        assert(outcomes1 + outcomes2 =~= outcomes1);
    } else {
        lemma_run_in_order(args1, outcomes1, args2.drop_last(), outcomes2.drop_last());
        assert((args1 + args2).drop_last() =~= args1 + args2.drop_last());
        assert((outcomes1 + outcomes2).drop_last() =~= outcomes1 + outcomes2.drop_last());
    }
}

/// A file that failed leaves the output stream of a run as it would be without it: the other
/// files are reported just the same.
pub proof fn lemma_failed_file_skipped(
    args: Seq<Seq<char>>,
    outcomes: Seq<Result<Metrics, FileError>>,
    k: int,
)
    requires
        args.len() == outcomes.len(),
        0 <= k < args.len(),
        outcomes[k] is Err,
    ensures
        files_out(args, outcomes) == files_out(args.remove(k), outcomes.remove(k)),
{
    let a1 = args.subrange(0, k);
    let o1 = outcomes.subrange(0, k);
    let a2 = args.subrange(k + 1, args.len() as int);
    let o2 = outcomes.subrange(k + 1, outcomes.len() as int);
    let one_a = seq![args[k]];
    let one_o = seq![outcomes[k]];
    assert(args =~= a1 + one_a + a2);
    assert(outcomes =~= o1 + one_o + o2);
    assert(args.remove(k) =~= a1 + a2);
    assert(outcomes.remove(k) =~= o1 + o2);
    lemma_run_in_order(a1 + one_a, o1 + one_o, a2, o2);
    lemma_run_in_order(a1, o1, one_a, one_o);
    lemma_run_in_order(a1, o1, a2, o2);
    assert(one_o.drop_last() =~= Seq::<Result<Metrics, FileError>>::empty());
    assert(one_o.last() == outcomes[k]);
    assert(files_out(one_a.drop_last(), one_o.drop_last()) =~= Seq::<char>::empty());
    assert(files_out(one_a, one_o) =~= Seq::<char>::empty());
    assert(files_out(a1, o1) + Seq::<char>::empty() =~= files_out(a1, o1));
}

/// A run given no file writes nothing on the output stream and just the usage message on the
/// error stream.
pub proof fn lemma_no_files(outcomes: Seq<Result<Metrics, FileError>>)
    requires
        outcomes.len() == 0,
    ensures
        files_out(Seq::empty(), outcomes) == Seq::<char>::empty(),
        run_err(Seq::empty(), outcomes) == usage_text() + "\n"@,
{
}

} // verus!
