//! Running a command line for the user: how the line is split into a program
//! and its arguments, and how what the process did is reported.
//!
//! The line is split at whitespace and nowhere else: there is no quoting, so
//! an argument cannot contain a space. Neither of the command lists in the
//! settings is consulted here.

use vstd::prelude::*;
use vstd::string::StringExecFns;
use crate::text::{
    chars_of,
    contains,
    contains_text,
    is_whitespace,
    join,
    push_char,
    separates,
    text_views,
};

verus! {

/// The word `word`, if it has any characters.
pub open spec fn finished(word: Seq<char>) -> Seq<Seq<char>> {
    if word.len() > 0 {
        seq![word]
    } else {
        Seq::empty()
    }
}

/// The words of `rest`, read after the characters of `word` have been read
/// without meeting whitespace.
pub open spec fn words_after(word: Seq<char>, rest: Seq<char>) -> Seq<Seq<char>>
    decreases rest.len(),
{
    if rest.len() == 0 {
        finished(word)
    } else if is_whitespace(rest[0]) {
        finished(word) + words_after(Seq::empty(), rest.drop_first())
    } else {
        words_after(word.push(rest[0]), rest.drop_first())
    }
}

/// The words of a line: its maximal runs of characters that are not
/// whitespace, in order.
pub open spec fn words(line: Seq<char>) -> Seq<Seq<char>> {
    words_after(Seq::empty(), line)
}

/// A text without whitespace.
pub open spec fn is_word(word: Seq<char>) -> bool {
    word.len() > 0 && forall|i: int| 0 <= i < word.len() ==> !is_whitespace(#[trigger] word[i])
}

/// Every word read is non-empty and free of whitespace, provided the part
/// read so far is.
pub proof fn lemma_words_after(word: Seq<char>, rest: Seq<char>)
    requires
        forall|i: int| 0 <= i < word.len() ==> !is_whitespace(#[trigger] word[i]),
    ensures
        forall|k: int|
            0 <= k < words_after(word, rest).len() ==> is_word(#[trigger] words_after(word, rest)[k]),
        words_after(word, rest).len() == 0 <==> word.len() == 0 && forall|i: int|
            0 <= i < rest.len() ==> is_whitespace(#[trigger] rest[i]),
    decreases rest.len(),
{
    if rest.len() == 0 {
    } else if is_whitespace(rest[0]) {
        let tail = rest.drop_first();
        lemma_words_after(Seq::empty(), tail);
        if words_after(word, rest).len() == 0 {
            assert forall|i: int| 0 <= i < rest.len() implies is_whitespace(#[trigger] rest[i]) by {
                if i > 0 {
                    assert(tail[i - 1] == rest[i]);
                }
            }
        }
        if word.len() == 0 && (forall|i: int|
            0 <= i < rest.len() ==> is_whitespace(#[trigger] rest[i])) {
            assert forall|i: int| 0 <= i < tail.len() implies is_whitespace(#[trigger] tail[i]) by {
                assert(tail[i] == rest[i + 1]);
            }
        }
    } else {
        let tail = rest.drop_first();
        let longer = word.push(rest[0]);
        assert forall|i: int| 0 <= i < longer.len() implies !is_whitespace(#[trigger] longer[i]) by {
            if i < word.len() {
                assert(longer[i] == word[i]);
            }
        }
        lemma_words_after(longer, tail);
        assert(!is_whitespace(rest[0]));
    }
}

/// Each word of a line is non-empty and free of whitespace, and a line has no
/// word exactly when it is empty or all whitespace.
pub proof fn lemma_words(line: Seq<char>)
    ensures
        forall|k: int| 0 <= k < words(line).len() ==> is_word(#[trigger] words(line)[k]),
        words(line).len() == 0 <==> forall|i: int|
            0 <= i < line.len() ==> is_whitespace(#[trigger] line[i]),
{
    lemma_words_after(Seq::empty(), line);
}

/// Splits a line into its words.
pub fn split_whitespace(line: &str) -> (parts: Vec<String>)
    ensures
        text_views(parts@) == words(line@),
{
    let chars = chars_of(line);
    let mut parts: Vec<String> = Vec::new();
    let mut word = String::new();
    let mut i: usize = 0;
    proof {
        assert(chars@.skip(0) =~= chars@);
        assert(text_views(parts@) =~= Seq::<Seq<char>>::empty());
        assert(Seq::<Seq<char>>::empty() + words(line@) =~= words(line@));
    }
    while i < chars.len()
        invariant
            i <= chars.len(),
            chars@ == line@,
            text_views(parts@) + words_after(word@, chars@.skip(i as int)) == words(line@),
        decreases chars.len() - i,
    {
        let c = chars[i];
        let ghost rest = chars@.skip(i as int);
        let ghost done = text_views(parts@);
        let ghost read = word@;
        proof {
            assert(rest[0] == c);
            assert(rest.drop_first() =~= chars@.skip(i + 1));
        }
        if separates(c) {
            if word.as_str().is_empty() {
                proof {
                    assert(read =~= Seq::<char>::empty());
                    assert(words_after(read, rest) == finished(read) + words_after(
                        Seq::empty(),
                        rest.drop_first(),
                    ));
                    assert(done + (Seq::<Seq<char>>::empty() + words_after(
                        Seq::empty(),
                        chars@.skip(i + 1),
                    )) =~= done + words_after(Seq::empty(), chars@.skip(i + 1)));
                }
            } else {
                let mut next = String::new();
                std::mem::swap(&mut word, &mut next);
                parts.push(next);
                proof {
                    assert(words_after(read, rest) == finished(read) + words_after(
                        Seq::empty(),
                        rest.drop_first(),
                    ));
                    assert(word@ =~= Seq::<char>::empty());
                    assert(text_views(parts@) =~= done.push(read));
                    assert(done + (seq![read] + words_after(Seq::empty(), chars@.skip(i + 1)))
                        =~= done.push(read) + words_after(Seq::empty(), chars@.skip(i + 1)));
                }
            }
        } else {
            push_char(&mut word, c);
            proof {
                assert(words_after(read, rest) == words_after(read.push(c), rest.drop_first()));
            }
        }
        i += 1;
    }
    proof {
        assert(chars@.skip(chars.len() as int) =~= Seq::<char>::empty());
    }
    let ghost done = text_views(parts@);
    let ghost read = word@;
    if !word.as_str().is_empty() {
        parts.push(word);
        proof {
            assert(text_views(parts@) =~= done.push(read));
            assert(done + seq![read] =~= done.push(read));
        }
    } else {
        proof {
            assert(done + Seq::<Seq<char>>::empty() =~= done);
        }
    }
    parts
}

/// Why a command did not succeed.
#[derive(Debug, PartialEq, Eq)]
pub enum ExecError {
    /// The command line holds no program.
    EmptyCommand,
    /// The named program could not be found.
    ProgramNotFound(String),
    /// The named program may not be executed.
    PermissionDenied(String),
    /// Anything else, with its message.
    Other(String),
}

/// The model of an `ExecError`.
pub enum ExecErrorView {
    EmptyCommand,
    ProgramNotFound(Seq<char>),
    PermissionDenied(Seq<char>),
    Other(Seq<char>),
}

impl View for ExecError {
    type V = ExecErrorView;

    open spec fn view(&self) -> ExecErrorView {
        match self {
            ExecError::EmptyCommand => ExecErrorView::EmptyCommand,
            ExecError::ProgramNotFound(p) => ExecErrorView::ProgramNotFound(p@),
            ExecError::PermissionDenied(p) => ExecErrorView::PermissionDenied(p@),
            ExecError::Other(m) => ExecErrorView::Other(m@),
        }
    }
}

impl ExecErrorView {
    /// The text shown to the user.
    pub open spec fn message(self) -> Seq<char> {
        match self {
            ExecErrorView::EmptyCommand => "Empty command"@,
            ExecErrorView::ProgramNotFound(p) => "Program '"@ + p
                + "' not found. Make sure it is installed and in your system PATH."@,
            ExecErrorView::PermissionDenied(p) => "Permission denied when trying to execute '"@ + p
                + "'. Check file permissions."@,
            ExecErrorView::Other(m) => m,
        }
    }
}

impl ExecError {
    /// The text shown to the user.
    pub fn message(&self) -> (message: String)
        ensures
            message@ == self@.message(),
    {
        match self {
            ExecError::EmptyCommand => String::from_str("Empty command"),
            ExecError::ProgramNotFound(p) => {
                let mut message = join("Program '", p.as_str());
                message.append("' not found. Make sure it is installed and in your system PATH.");
                message
            },
            ExecError::PermissionDenied(p) => {
                let mut message = join("Permission denied when trying to execute '", p.as_str());
                message.append("'. Check file permissions.");
                message
            },
            ExecError::Other(m) => m.clone(),
        }
    }
}

/// A command line ready to be launched.
#[derive(Debug, PartialEq, Eq)]
pub struct Invocation {
    pub program: String,
    pub args: Vec<String>,
    /// The directory asked for, or the caller's own where none was asked for.
    pub working_dir: String,
}

/// The model of an `Invocation`.
pub struct InvocationView {
    pub program: Seq<char>,
    pub args: Seq<Seq<char>>,
    pub working_dir: Seq<char>,
}

impl View for Invocation {
    type V = InvocationView;

    open spec fn view(&self) -> InvocationView {
        InvocationView {
            program: self.program@,
            args: text_views(self.args@),
            working_dir: self.working_dir@,
        }
    }
}

/// The model of what `plan` returns.
pub open spec fn plan_view(plan: Result<Invocation, ExecError>) -> Result<
    InvocationView,
    ExecErrorView,
> {
    match plan {
        Ok(invocation) => Ok(invocation@),
        Err(e) => Err(e@),
    }
}

/// The directory a command is to run in: the one asked for, else the caller's.
pub open spec fn directory_for(requested: Option<String>, current_dir: Seq<char>) -> Seq<char> {
    match requested {
        Some(dir) => dir@,
        None => current_dir,
    }
}

/// What a command line and a requested directory amount to: the first word is
/// the program, the others are its arguments; a line without words is an
/// error.
pub open spec fn planned(line: Seq<char>, requested: Option<String>, current_dir: Seq<char>) -> Result<
    InvocationView,
    ExecErrorView,
> {
    let parts = words(line);
    if parts.len() == 0 {
        Err(ExecErrorView::EmptyCommand)
    } else {
        Ok(
            InvocationView {
                program: parts[0],
                args: parts.drop_first(),
                working_dir: directory_for(requested, current_dir),
            },
        )
    }
}

/// Reads a command line. `cwd` is the directory asked for, `current_dir` the
/// caller's own directory, used where none was asked for.
pub fn plan(command: &str, cwd: Option<String>, current_dir: &str) -> (planned_call: Result<
    Invocation,
    ExecError,
>)
    ensures
        plan_view(planned_call) == planned(command@, cwd, current_dir@),
{
    let mut parts = split_whitespace(command);
    if parts.len() == 0 {
        return Err(ExecError::EmptyCommand);
    }
    let ghost all = parts@;
    let program = parts.remove(0);
    proof {
        assert(text_views(all)[0] == program@);
        assert(text_views(parts@) =~= text_views(all).drop_first());
    }
    let working_dir = match cwd {
        Some(dir) => dir,
        None => String::from_str(current_dir),
    };
    Ok(Invocation { program, args: parts, working_dir })
}

impl Invocation {
    /// The directory to start the process in, given whether `working_dir`
    /// exists: a directory that does not exist is ignored, and the process
    /// starts where the caller is.
    pub fn directory(&self, exists: bool) -> (dir: Option<&String>)
        ensures
            exists ==> dir is Some && dir->Some_0@ == self.working_dir@,
            !exists ==> dir is None,
    {
        if exists {
            Some(&self.working_dir)
        } else {
            None
        }
    }
}

/// What became of a launch.
pub enum LaunchOutcome {
    /// The process ran to its end. `status` is the exit status in words.
    Completed { stdout: String, stderr: String, success: bool, status: String },
    /// The process could not be started; the text is the system's error.
    Failed(String),
}

/// The model of what a command results in.
pub open spec fn result_view(result: Result<String, ExecError>) -> Result<Seq<char>, ExecErrorView> {
    match result {
        Ok(text) => Ok(text@),
        Err(e) => Err(e@),
    }
}

/// How a finished process is reported. In this order:
/// warnings on success are appended to the output under a heading;
/// errors on failure are the message; a failure that printed nothing names
/// the exit status; anything else is the output.
pub open spec fn reported(stdout: Seq<char>, stderr: Seq<char>, success: bool, status: Seq<char>) -> Result<
    Seq<char>,
    ExecErrorView,
> {
    if stderr.len() > 0 {
        if success {
            Ok(stdout + "\n\nWarnings:\n"@ + stderr)
        } else {
            Err(ExecErrorView::Other(stderr))
        }
    } else if stdout.len() == 0 && !success {
        Err(ExecErrorView::Other("Command failed with no output. Exit code: "@ + status))
    } else {
        Ok(stdout)
    }
}

/// Reports a finished process.
pub fn classify_output(stdout: String, stderr: String, success: bool, status: &str) -> (result:
    Result<String, ExecError>)
    ensures
        result_view(result) == reported(stdout@, stderr@, success, status@),
{
    if !stderr.as_str().is_empty() {
        if success {
            let mut text = stdout;
            text.append("\n\nWarnings:\n");
            text.append(stderr.as_str());
            Ok(text)
        } else {
            Err(ExecError::Other(stderr))
        }
    } else if stdout.as_str().is_empty() && !success {
        Err(ExecError::Other(join("Command failed with no output. Exit code: ", status)))
    } else {
        Ok(stdout)
    }
}

/// The error text says that the program does not exist: it holds `not found`
/// or `No such file or directory`.
pub open spec fn says_not_found(error: Seq<char>) -> bool {
    contains_text(error, "not found"@) || contains_text(error, "No such file or directory"@)
}

/// The error text says that the program may not be executed. The wordings
/// are those in use: `Permission denied` on Unix-like systems,
/// `Access is denied` on Windows, and `permission denied` where the error
/// does not come from the system.
pub open spec fn says_permission_denied(error: Seq<char>) -> bool {
    ||| contains_text(error, "Permission denied"@)
    ||| contains_text(error, "permission denied"@)
    ||| contains_text(error, "Access is denied"@)
}

/// How a launch that failed is reported, going by the error text: a missing
/// program is named as such, and so is a refused permission unless the text
/// also says that the program is missing; any other text is handed on as it
/// is.
pub open spec fn launch_failure(program: Seq<char>, error: Seq<char>) -> ExecErrorView {
    if says_not_found(error) {
        ExecErrorView::ProgramNotFound(program)
    } else if says_permission_denied(error) {
        ExecErrorView::PermissionDenied(program)
    } else {
        ExecErrorView::Other(error)
    }
}

/// Reports a launch that failed.
pub fn classify_launch_failure(program: &str, error: String) -> (failure: ExecError)
    ensures
        failure@ == launch_failure(program@, error@),
{
    let text = error.as_str();
    if contains(text, "not found") || contains(text, "No such file or directory") {
        ExecError::ProgramNotFound(String::from_str(program))
    } else if contains(text, "Permission denied") || contains(text, "permission denied")
        || contains(text, "Access is denied") {
        ExecError::PermissionDenied(String::from_str(program))
    } else {
        ExecError::Other(error)
    }
}

/// What the caller is told once a launch is over.
pub open spec fn concluded(program: Seq<char>, outcome: LaunchOutcome) -> Result<
    Seq<char>,
    ExecErrorView,
> {
    match outcome {
        LaunchOutcome::Completed { stdout, stderr, success, status } => reported(
            stdout@,
            stderr@,
            success,
            status@,
        ),
        LaunchOutcome::Failed(error) => Err(launch_failure(program, error@)),
    }
}

/// Reports the outcome of launching `invocation`.
pub fn conclude(invocation: &Invocation, outcome: LaunchOutcome) -> (result: Result<
    String,
    ExecError,
>)
    ensures
        result_view(result) == concluded(invocation.program@, outcome),
{
    match outcome {
        LaunchOutcome::Completed { stdout, stderr, success, status } => classify_output(
            stdout,
            stderr,
            success,
            status.as_str(),
        ),
        LaunchOutcome::Failed(error) => Err(
            classify_launch_failure(invocation.program.as_str(), error),
        ),
    }
}

/// Runs a command line: reads it, has the process launched, and reports what
/// came of it.
///
/// A line without a program is refused at once and `launch` is not called.
/// Otherwise `launch` is called once with the invocation; it starts the
/// process, in `working_dir` if that directory exists, waits for it to end
/// and comes back with the outcome, which is reported as by `conclude`.
pub fn execute_command<L: FnOnce(&Invocation) -> LaunchOutcome>(
    command: &str,
    cwd: Option<String>,
    current_dir: &str,
    launch: L,
) -> (result: Result<String, ExecError>)
    requires
        forall|invocation: &Invocation| launch.requires((invocation,)),
    ensures
        planned(command@, cwd, current_dir@) is Err ==> result_view(result) == Err::<
            Seq<char>,
            ExecErrorView,
        >(ExecErrorView::EmptyCommand),
        planned(command@, cwd, current_dir@) is Ok ==> exists|
            invocation: Invocation,
            outcome: LaunchOutcome,
        |
            Ok::<InvocationView, ExecErrorView>(invocation@) == planned(command@, cwd, current_dir@)
                && launch.ensures((&invocation,), outcome) && result_view(result) == concluded(
                invocation.program@,
                outcome,
            ),
{
    match plan(command, cwd, current_dir) {
        Err(e) => Err(e),
        Ok(invocation) => {
            let outcome = launch(&invocation);
            conclude(&invocation, outcome)
        },
    }
}

} // verus!
