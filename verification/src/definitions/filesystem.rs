//! The filesystem steps: writing a file into the sandbox and reading one
//! back. The reads and writes themselves happen at the program's edge; here
//! the arguments are checked and the failure messages are fixed.

use vstd::prelude::*;

use crate::errors::{ToolproofInputError, ToolproofStepError, ToolproofTestFailure};
use crate::json::JsonValue;

verus! {

/// A write the I/O shell must perform: create the parent directories of
/// `filename` under the sandbox and overwrite the file with `contents`.
#[derive(Debug)]
pub struct FileWrite {
    pub filename: String,
    pub contents: String,
}

/// `I have a {filename} file with the content {contents}`.
pub struct NewFile;

impl NewFile {
    /// The pattern this instruction registers under.
    pub fn segments(&self) -> &'static str {
        "I have a {filename} file with the content {contents}"
    }

    /// Check the arguments and say what to write: the file name must be a
    /// non-empty string and the contents a string.
    pub fn run(&self, filename: String, contents: String) -> (r: Result<
        FileWrite,
        ToolproofStepError,
    >)
        ensures
            filename@.len() == 0 <==> (r matches Result::Err(ToolproofStepError::External(
                ToolproofInputError::ArgumentRequiresValue { arg },
            )) && arg@ == "filename"@),
            filename@.len() > 0 ==> (r matches Result::Ok(w) && w.filename@ == filename@
                && w.contents@ == contents@),
    {
        if filename.as_str().unicode_len() == 0 {
            let mut arg: Vec<char> = Vec::new();
            crate::text::extend_str(&mut arg, "filename");
            proof {
                assert(arg@ =~= "filename"@);
            }
            return Result::Err(
                ToolproofStepError::External(
                    ToolproofInputError::ArgumentRequiresValue {
                        arg: crate::text::string_from_chars(&arg),
                    },
                ),
            );
        }
        Result::Ok(FileWrite { filename, contents })
    }
}

/// How reading a sandbox file can fail at the edge.
#[derive(Debug, Clone, Copy, PartialEq, Eq, Structural)]
pub enum FileReadError {
    NotFound,
    Unreadable,
    InvalidUtf8,
}

/// The message reported for each way a read can fail.
pub open spec fn read_failure_msg(e: FileReadError) -> Seq<char> {
    match e {
        FileReadError::NotFound => "the file does not exist"@,
        FileReadError::Unreadable => "the file was not readable"@,
        FileReadError::InvalidUtf8 => "the file was not valid UTF-8"@,
    }
}

/// `The file {filename}`.
pub struct PlainFile;

impl PlainFile {
    /// The pattern this retriever registers under.
    pub fn segments(&self) -> &'static str {
        "The file {filename}"
    }

    /// Check the file name: it must be a non-empty string; the shell then
    /// reads the file and `conclude` turns what it found into the retrieved
    /// value.
    pub fn run(&self, filename: String) -> (r: Result<String, ToolproofStepError>)
        ensures
            filename@.len() == 0 <==> (r matches Result::Err(ToolproofStepError::External(
                ToolproofInputError::ArgumentRequiresValue { arg },
            )) && arg@ == "filename"@),
            filename@.len() > 0 ==> (r matches Result::Ok(f) && f@ == filename@),
    {
        if filename.as_str().unicode_len() == 0 {
            let mut arg: Vec<char> = Vec::new();
            crate::text::extend_str(&mut arg, "filename");
            proof {
                assert(arg@ =~= "filename"@);
            }
            return Result::Err(
                ToolproofStepError::External(
                    ToolproofInputError::ArgumentRequiresValue {
                        arg: crate::text::string_from_chars(&arg),
                    },
                ),
            );
        }
        Result::Ok(filename)
    }

    /// Turn what the shell read into the retrieved value: the contents as a
    /// JSON string, or the failure named for its cause.
    pub fn conclude(&self, read: Result<String, FileReadError>) -> (r: Result<
        JsonValue,
        ToolproofStepError,
    >)
        ensures
            match read {
                Result::Ok(contents) => r matches Result::Ok(v) && v@ == crate::json::JsonView::Str(
                    contents@,
                ),
                Result::Err(e) => r matches Result::Err(ToolproofStepError::Assertion(
                    ToolproofTestFailure::Custom { msg },
                )) && msg@ == read_failure_msg(e),
            },
    {
        match read {
            Result::Ok(contents) => Result::Ok(JsonValue::Str(contents)),
            Result::Err(e) => {
                let msg = match e {
                    FileReadError::NotFound => "the file does not exist",
                    FileReadError::Unreadable => "the file was not readable",
                    FileReadError::InvalidUtf8 => "the file was not valid UTF-8",
                };
                let mut out: Vec<char> = Vec::new();
                crate::text::extend_str(&mut out, msg);
                proof {
                    assert(out@ =~= read_failure_msg(e));
                }
                Result::Err(
                    ToolproofStepError::Assertion(
                        ToolproofTestFailure::Custom {
                            msg: crate::text::string_from_chars(&out),
                        },
                    ),
                )
            },
        }
    }
}

/// A human-readable indented listing of the files under the sandbox, for
/// diagnostics: each path contributes `| ` plus two spaces of indentation per
/// directory level and its file name.
pub open spec fn spec_file_tree(paths: Seq<(nat, Seq<char>)>) -> Seq<char>
    decreases paths.len(),
{
    if paths.len() == 0 {
        Seq::empty()
    } else {
        let line = "| "@ + indent_of(paths[0].0) + paths[0].1;
        if paths.len() == 1 {
            line
        } else {
            line + seq!['\n'] + spec_file_tree(paths.drop_first())
        }
    }
}

/// Two spaces per level.
pub open spec fn indent_of(depth: nat) -> Seq<char>
    decreases depth,
{
    if depth == 0 {
        Seq::empty()
    } else {
        seq![' ', ' '] + indent_of((depth - 1) as nat)
    }
}

/// The indentation is all spaces, two per level.
proof fn lemma_indent_spaces(depth: nat)
    ensures
        indent_of(depth).len() == 2 * depth,
        forall|i: int| 0 <= i < indent_of(depth).len() ==> indent_of(depth)[i] == ' ',
    decreases depth,
{
    if depth > 0 {
        lemma_indent_spaces((depth - 1) as nat);
    }
}

/// Render the sandbox file listing: the shell walks the directory and hands
/// in each file's depth (directory levels below the sandbox root) and name.
#[verifier::loop_isolation(false)]
pub fn get_file_tree(entries: &Vec<(usize, String)>) -> (r: String)
    ensures
        r@ == spec_file_tree(
            Seq::new(entries@.len(), |i: int| (entries@[i].0 as nat, entries@[i].1@)),
        ),
{
    let ghost model = Seq::new(entries@.len(), |i: int| (entries@[i].0 as nat, entries@[i].1@));
    let mut out: Vec<char> = Vec::new();
    let mut i: usize = 0;
    proof {
        assert(model.skip(0) =~= model);
    }
    while i < entries.len()
        invariant
            i <= entries@.len(),
            out@ + spec_file_tree(model.skip(i as int)) == spec_file_tree(model),
        decreases entries@.len() - i,
    {
        let ghost tail = model.skip(i as int);
        let ghost base0 = out@;
        proof {
            reveal_strlit("| ");
        }
        crate::text::extend_str(&mut out, "| ");
        let depth = entries[i].0;
        let ghost base1 = out@;
        let mut d: usize = 0;
        while d < depth
            invariant
                d <= depth,
                out@.len() == base1.len() + 2 * d,
                base1.len() == base0.len() + 2,
                out@.take(base1.len() as int) == base1,
                forall|k: int| base1.len() <= k < out@.len() ==> out@[k] == ' ',
            decreases depth - d,
        {
            out.push(' ');
            out.push(' ');
            d += 1;
        }
        proof {
            lemma_indent_spaces(depth as nat);
            assert(out@ =~= base1 + indent_of(depth as nat));
        }
        crate::text::extend_str(&mut out, entries[i].1.as_str());
        proof {
            assert(out@ =~= base0 + ("| "@ + indent_of(depth as nat) + entries@[i as int].1@));
            assert(tail[0] == (entries@[i as int].0 as nat, entries@[i as int].1@));
            assert(tail.drop_first() =~= model.skip(i + 1));
        }
        if i + 1 < entries.len() {
            out.push('\n');
            proof {
                assert(out@ =~= base0 + ("| "@ + indent_of(depth as nat) + entries@[i as int].1@)
                    + seq!['\n']);
                assert(out@ + spec_file_tree(model.skip(i + 1)) =~= spec_file_tree(model));
            }
        } else {
            proof {
                assert(model.skip(i + 1) =~= Seq::<(nat, Seq<char>)>::empty());
                assert(spec_file_tree(model.skip(i + 1)) == Seq::<char>::empty());
                assert(out@ + spec_file_tree(model.skip(i + 1)) =~= spec_file_tree(model));
            }
        }
        i += 1;
    }
    proof {
        assert(model.skip(model.len() as int) =~= Seq::<(nat, Seq<char>)>::empty());
        assert(out@ =~= spec_file_tree(model));
    }
    crate::text::string_from_chars(&out)
}

} // verus!
