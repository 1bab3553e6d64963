use vstd::prelude::*;

use crate::path::{file_name, file_name_of};
use crate::text::{char_count, count_char, find_nr_char, law_contains_iff_counted, str_eq};

verus! {

/// The commands of the tool, named by the first argument after the program.
#[derive(Clone, Copy, Debug, PartialEq, Eq)]
pub enum Command {
    Pwd,
    Echo,
    Ls,
    Cat,
    Mkdir,
    Mv,
    Ln,
    Rmdir,
    Rm,
    Touch,
    Cp,
    Chmod,
}

pub open spec fn command_named(name: Seq<char>) -> Option<Command> {
    if name == "pwd"@ {
        Some(Command::Pwd)
    } else if name == "echo"@ {
        Some(Command::Echo)
    } else if name == "ls"@ {
        Some(Command::Ls)
    } else if name == "cat"@ {
        Some(Command::Cat)
    } else if name == "mkdir"@ {
        Some(Command::Mkdir)
    } else if name == "mv"@ {
        Some(Command::Mv)
    } else if name == "ln"@ {
        Some(Command::Ln)
    } else if name == "rmdir"@ {
        Some(Command::Rmdir)
    } else if name == "rm"@ {
        Some(Command::Rm)
    } else if name == "touch"@ {
        Some(Command::Touch)
    } else if name == "cp"@ {
        Some(Command::Cp)
    } else if name == "chmod"@ {
        Some(Command::Chmod)
    } else {
        None
    }
}

/// Each command has its own name: two names that give the same command are
/// the same name.
pub proof fn law_command_names_distinct(a: Seq<char>, b: Seq<char>)
    requires
        command_named(a) is Some,
        command_named(a) == command_named(b),
    ensures
        a == b,
{
}

/// Finds the command of the given name; `None` for an unknown name, which
/// the tool answers with `Invalid command` and exit status -1.
pub fn parse_command(name: &str) -> (command: Option<Command>)
    ensures
        command == command_named(name@),
{
    if str_eq(name, "pwd") {
        Some(Command::Pwd)
    } else if str_eq(name, "echo") {
        Some(Command::Echo)
    } else if str_eq(name, "ls") {
        Some(Command::Ls)
    } else if str_eq(name, "cat") {
        Some(Command::Cat)
    } else if str_eq(name, "mkdir") {
        Some(Command::Mkdir)
    } else if str_eq(name, "mv") {
        Some(Command::Mv)
    } else if str_eq(name, "ln") {
        Some(Command::Ln)
    } else if str_eq(name, "rmdir") {
        Some(Command::Rmdir)
    } else if str_eq(name, "rm") {
        Some(Command::Rm)
    } else if str_eq(name, "touch") {
        Some(Command::Touch)
    } else if str_eq(name, "cp") {
        Some(Command::Cp)
    } else if str_eq(name, "chmod") {
        Some(Command::Chmod)
    } else {
        None
    }
}

/// The exit status with which a command ends when a file operation fails;
/// `None` for the commands that do not turn such a failure into a status.
pub open spec fn failure_status_of(command: Command) -> Option<i32> {
    match command {
        Command::Cat => Some(-20i32),
        Command::Chmod => Some(-25i32),
        Command::Mkdir => Some(-30i32),
        Command::Mv => Some(-40i32),
        Command::Ln => Some(-50i32),
        Command::Rmdir => Some(-60i32),
        Command::Rm => Some(-70i32),
        Command::Cp => Some(-90i32),
        _ => None,
    }
}

/// Each command that turns a failed file operation into an exit status has
/// its own status, and none of them is 0.
pub proof fn law_failure_statuses_distinct(a: Command, b: Command)
    requires
        failure_status_of(a) is Some,
        failure_status_of(a) == failure_status_of(b),
    ensures
        a == b,
        failure_status_of(a)->0 != 0,
{
}

impl Command {
    /// The exit status with which this command ends when a file operation
    /// fails.
    pub fn failure_status(&self) -> (status: Option<i32>)
        ensures
            status == failure_status_of(*self),
    {
        match self {
            Command::Cat => Some(-20),
            Command::Chmod => Some(-25),
            Command::Mkdir => Some(-30),
            Command::Mv => Some(-40),
            Command::Ln => Some(-50),
            Command::Rmdir => Some(-60),
            Command::Rm => Some(-70),
            Command::Cp => Some(-90),
            _ => None,
        }
    }
}

/// Why a command line cannot be carried out.
#[derive(Clone, Copy, Debug, PartialEq, Eq)]
pub enum Failure {
    /// An argument the command reads is not there.
    MissingArgument,
    /// The command line is refused: `Invalid command`, exit status -1.
    InvalidCommand,
}

/// A file-system operation that a command performs.
#[derive(Debug, PartialEq, Eq)]
pub enum FsOp {
    CreateDir(String),
    RemoveDir(String),
    /// From, to.
    Rename(String, String),
    /// Target, link.
    Symlink(String, String),
    /// Target, link.
    HardLink(String, String),
}

/// `-s` or `--symbolic`.
pub open spec fn is_symbolic_flag(s: Seq<char>) -> bool {
    s == "-s"@ || s == "--symbolic"@
}

fn symbolic_flag(s: &str) -> (b: bool)
    ensures
        b == is_symbolic_flag(s@),
{
    str_eq(s, "-s") || str_eq(s, "--symbolic")
}

/// The operation `CreateDir` (or `RemoveDir`, where `remove`) for each
/// argument from position `from` on.
pub open spec fn dir_ops(args: Seq<String>, from: int, remove: bool) -> Seq<FsOp> {
    Seq::new(
        (args.len() - from) as nat,
        |i: int|
            if remove {
                FsOp::RemoveDir(args[from + i])
            } else {
                FsOp::CreateDir(args[from + i])
            },
    )
}

fn dir_ops_from(args: &Vec<String>, from: usize, remove: bool) -> (ops: Vec<FsOp>)
    requires
        from <= args.len(),
    ensures
        ops@ == dir_ops(args@, from as int, remove),
{
    let mut ops: Vec<FsOp> = Vec::new();
    let mut i = from;
    while i < args.len()
        invariant
            from <= i <= args.len(),
            ops@ =~= dir_ops(args@, from as int, remove).take(i - from),
        decreases args.len() - i,
    {
        let name = args[i].clone();
        if remove {
            ops.push(FsOp::RemoveDir(name));
        } else {
            ops.push(FsOp::CreateDir(name));
        }
        i += 1;
    }
    ops
}

/// `mkdir` makes exactly one directory per operand, in the order given:
/// as many operations as operands, the `i`-th naming the `i`-th operand,
/// and one more operand adds one more operation at the end.
pub proof fn law_mkdir_one_per_operand(args: Seq<String>, extra: String)
    requires
        args.len() >= 2,
    ensures
        dir_ops(args, 2, false).len() == args.len() - 2,
        forall|i: int|
            0 <= i < args.len() - 2 ==> dir_ops(args, 2, false)[i] == FsOp::CreateDir(args[i + 2]),
        dir_ops(args.push(extra), 2, false) == dir_ops(args, 2, false).push(FsOp::CreateDir(extra)),
{
    assert(dir_ops(args.push(extra), 2, false) =~= dir_ops(args, 2, false).push(
        FsOp::CreateDir(extra),
    ));
}

/// `rmdir` without `-s` removes exactly one directory per operand, in the
/// order given, and one more operand adds one more removal at the end.
pub proof fn law_rmdir_one_per_operand(args: Seq<String>, extra: String)
    requires
        args.len() >= 3,
        !is_symbolic_flag(args[2]@),
    ensures
        rmdir_plan(args) is Ok,
        rmdir_plan(args)->Ok_0.len() == args.len() - 2,
        forall|i: int|
            0 <= i < args.len() - 2 ==> rmdir_plan(args)->Ok_0[i] == FsOp::RemoveDir(args[i + 2]),
        rmdir_plan(args.push(extra)) == Ok::<Seq<FsOp>, Failure>(
            rmdir_plan(args)->Ok_0.push(FsOp::RemoveDir(extra)),
        ),
{
    assert(args.push(extra)[2] == args[2]);
    assert(dir_ops(args.push(extra), 2, true) =~= dir_ops(args, 2, true).push(
        FsOp::RemoveDir(extra),
    ));
}

/// `mkdir DIR...`: creates each directory in turn.
pub fn mkdir(args: &Vec<String>) -> (ops: Vec<FsOp>)
    requires
        args.len() >= 2,
    ensures
        ops@ == dir_ops(args@, 2, false),
{
    dir_ops_from(args, 2, false)
}

pub open spec fn mv_plan(args: Seq<String>) -> Result<FsOp, Failure> {
    if args.len() < 4 {
        Err(Failure::MissingArgument)
    } else {
        Ok(FsOp::Rename(args[2], args[3]))
    }
}

/// `mv FROM TO`: renames.
pub fn mv(args: &Vec<String>) -> (op: Result<FsOp, Failure>)
    ensures
        op == mv_plan(args@),
{
    if args.len() < 4 {
        Err(Failure::MissingArgument)
    } else {
        Ok(FsOp::Rename(args[2].clone(), args[3].clone()))
    }
}

pub open spec fn ln_plan(args: Seq<String>) -> Result<FsOp, Failure> {
    if args.len() < 3 {
        Err(Failure::MissingArgument)
    } else if is_symbolic_flag(args[2]@) {
        if args.len() < 5 {
            Err(Failure::MissingArgument)
        } else {
            Ok(FsOp::Symlink(args[3], args[4]))
        }
    } else if args.len() != 4 {
        Err(Failure::InvalidCommand)
    } else {
        Ok(FsOp::HardLink(args[2], args[3]))
    }
}

/// The operands of `mv` and `ln` keep their order: the first names what
/// exists, the second the new name.
pub proof fn law_operand_order(args: Seq<String>)
    ensures
        args.len() >= 4 ==> mv_plan(args) == Ok::<FsOp, Failure>(FsOp::Rename(args[2], args[3])),
        args.len() >= 5 && is_symbolic_flag(args[2]@) ==> ln_plan(args) == Ok::<FsOp, Failure>(
            FsOp::Symlink(args[3], args[4]),
        ),
        args.len() == 4 && !is_symbolic_flag(args[2]@) ==> ln_plan(args) == Ok::<FsOp, Failure>(
            FsOp::HardLink(args[2], args[3]),
        ),
        args.len() >= 4 && !starts_with_dash(args[2]@) ==> chmod_request(args) == Ok::<
            ChmodRequest,
            Failure,
        >(ChmodRequest { file: args[3], mode: args[2] }),
{
}

/// `ln -s TARGET LINK` makes a symbolic link, `ln TARGET LINK` a hard link;
/// any other number of arguments without `-s` is refused.
pub fn ln(args: &Vec<String>) -> (op: Result<FsOp, Failure>)
    ensures
        op == ln_plan(args@),
{
    if args.len() < 3 {
        Err(Failure::MissingArgument)
    } else if symbolic_flag(args[2].as_str()) {
        if args.len() < 5 {
            Err(Failure::MissingArgument)
        } else {
            Ok(FsOp::Symlink(args[3].clone(), args[4].clone()))
        }
    } else if args.len() != 4 {
        Err(Failure::InvalidCommand)
    } else {
        Ok(FsOp::HardLink(args[2].clone(), args[3].clone()))
    }
}

pub open spec fn rmdir_plan(args: Seq<String>) -> Result<Seq<FsOp>, Failure> {
    if args.len() < 3 {
        Err(Failure::MissingArgument)
    } else if is_symbolic_flag(args[2]@) {
        if args.len() < 5 {
            Err(Failure::MissingArgument)
        } else {
            Ok(seq![FsOp::Symlink(args[3], args[4])])
        }
    } else {
        Ok(dir_ops(args, 2, true))
    }
}

/// `rmdir DIR...` removes each (empty) directory in turn; with `-s` or
/// `--symbolic` as its first argument it makes a symbolic link instead.
pub fn rmdir(args: &Vec<String>) -> (ops: Result<Vec<FsOp>, Failure>)
    ensures
        match (ops, rmdir_plan(args@)) {
            (Ok(v), Ok(s)) => v@ == s,
            (Err(e), Err(f)) => e == f,
            _ => false,
        },
{
    if args.len() < 3 {
        Err(Failure::MissingArgument)
    } else if symbolic_flag(args[2].as_str()) {
        if args.len() < 5 {
            Err(Failure::MissingArgument)
        } else {
            let mut v: Vec<FsOp> = Vec::new();
            v.push(FsOp::Symlink(args[3].clone(), args[4].clone()));
            assert(v@ =~= seq![FsOp::Symlink(args@[3], args@[4])]);
            Ok(v)
        }
    } else {
        Ok(dir_ops_from(args, 2, true))
    }
}

/// The arguments from position `from` on.
fn operands(args: &Vec<String>, from: usize) -> (v: Vec<String>)
    requires
        from <= args.len(),
    ensures
        v@ == args@.skip(from as int),
{
    let mut v: Vec<String> = Vec::new();
    let mut i = from;
    while i < args.len()
        invariant
            from <= i <= args.len(),
            v@ =~= args@.subrange(from as int, i as int),
        decreases args.len() - i,
    {
        v.push(args[i].clone());
        i += 1;
    }
    v
}

/// Whether a string starts with `-`.
pub open spec fn starts_with_dash(s: Seq<char>) -> bool {
    s.len() > 0 && s[0] == '-'
}

fn dash_first(s: &str) -> (b: bool)
    ensures
        b == starts_with_dash(s@),
{
    s.unicode_len() > 0 && s.get_char(0) == '-'
}

/// `-d` or `--dir`.
pub open spec fn is_dir_flag(s: Seq<char>) -> bool {
    s == "-d"@ || s == "--dir"@
}

/// `-r`, `--recursive` or `-R`.
pub open spec fn is_recursive_flag(s: Seq<char>) -> bool {
    s == "-r"@ || s == "--recursive"@ || s == "-R"@
}

fn dir_flag(s: &str) -> (b: bool)
    ensures
        b == is_dir_flag(s@),
{
    str_eq(s, "-d") || str_eq(s, "--dir")
}

fn recursive_flag(s: &str) -> (b: bool)
    ensures
        b == is_recursive_flag(s@),
{
    str_eq(s, "-r") || str_eq(s, "--recursive") || str_eq(s, "-R")
}

/// What `rm` does with each of its operands.
#[derive(Clone, Copy, Debug, PartialEq, Eq)]
pub enum RmMode {
    /// Remove each as an empty directory.
    Dirs,
    /// Remove a directory with all it holds, or a file.
    Trees,
    /// Remove files; directories are left and make the command fail at the end.
    FilesOnly,
}

/// What `rm` removes, and how.
#[derive(Debug, PartialEq, Eq)]
pub struct RmPlan {
    pub mode: RmMode,
    pub targets: Vec<String>,
}

pub open spec fn rm_plan(args: Seq<String>) -> Result<(RmMode, Seq<String>), Failure> {
    if args.len() < 3 {
        Err(Failure::MissingArgument)
    } else if starts_with_dash(args[2]@) && args.len() < 4 {
        Err(Failure::InvalidCommand)
    } else if is_dir_flag(args[2]@) {
        if is_recursive_flag(args[3]@) {
            Ok((RmMode::Trees, args.skip(4)))
        } else {
            Ok((RmMode::Dirs, args.skip(3)))
        }
    } else if is_recursive_flag(args[2]@) {
        if is_dir_flag(args[3]@) {
            Ok((RmMode::Trees, args.skip(4)))
        } else {
            Ok((RmMode::Trees, args.skip(3)))
        }
    } else {
        Ok((RmMode::FilesOnly, args.skip(2)))
    }
}

/// `rm [-d|--dir] [-r|-R|--recursive] PATH...`: with `-d` alone the paths
/// are empty directories, with `-r` (alone or with `-d`) directories go with
/// all they hold, and without options only files are removed. An option
/// with nothing after it is refused.
pub fn rm(args: &Vec<String>) -> (plan: Result<RmPlan, Failure>)
    ensures
        match (plan, rm_plan(args@)) {
            (Ok(p), Ok(s)) => p.mode == s.0 && p.targets@ == s.1,
            (Err(e), Err(f)) => e == f,
            _ => false,
        },
{
    if args.len() < 3 {
        return Err(Failure::MissingArgument);
    }
    let flag = args[2].as_str();
    if dash_first(flag) && args.len() < 4 {
        return Err(Failure::InvalidCommand);
    }
    proof {
        reveal_strlit("-d");
        reveal_strlit("--dir");
        reveal_strlit("-r");
        reveal_strlit("--recursive");
        reveal_strlit("-R");
    }
    if dir_flag(flag) {
        if recursive_flag(args[3].as_str()) {
            Ok(RmPlan { mode: RmMode::Trees, targets: operands(args, 4) })
        } else {
            Ok(RmPlan { mode: RmMode::Dirs, targets: operands(args, 3) })
        }
    } else if recursive_flag(flag) {
        if dir_flag(args[3].as_str()) {
            Ok(RmPlan { mode: RmMode::Trees, targets: operands(args, 4) })
        } else {
            Ok(RmPlan { mode: RmMode::Trees, targets: operands(args, 3) })
        }
    } else {
        Ok(RmPlan { mode: RmMode::FilesOnly, targets: operands(args, 2) })
    }
}

/// How many leading arguments (program, command, options) `rm` reads
/// before its paths: the options are `-d`/`--dir` and `-r`/`-R`/`--recursive`,
/// each at most once, in either order, at the front.
pub open spec fn rm_options_end(args: Seq<String>) -> int {
    if !is_dir_flag(args[2]@) && !is_recursive_flag(args[2]@) {
        2
    } else if is_dir_flag(args[2]@) && is_recursive_flag(args[3]@) {
        4
    } else if is_recursive_flag(args[2]@) && is_dir_flag(args[3]@) {
        4
    } else {
        3
    }
}

/// No argument is both a directory flag and a recursive flag.
proof fn lemma_rm_flags_distinct(s: Seq<char>)
    ensures
        !(is_dir_flag(s) && is_recursive_flag(s)),
{
    reveal_strlit("-d");
    reveal_strlit("--dir");
    reveal_strlit("-r");
    reveal_strlit("--recursive");
    reveal_strlit("-R");
    if s == "-d"@ {
        assert(s.len() == 2 && s[1] == 'd');
        assert("-r"@[1] == 'r' && "-R"@[1] == 'R' && "--recursive"@.len() == 11);
    }
    if s == "--dir"@ {
        assert(s.len() == 5);
        assert("-r"@.len() == 2 && "-R"@.len() == 2 && "--recursive"@.len() == 11);
    }
}

/// Every argument after `rm`'s options is a path to remove, in order, and
/// nothing else is: the paths are exactly the arguments from the end of
/// the options on. One more argument adds one more path at the end.
pub proof fn law_rm_every_operand_is_a_target(args: Seq<String>, extra: String)
    requires
        rm_plan(args) is Ok,
    ensures
        rm_plan(args)->Ok_0.1 == args.skip(rm_options_end(args)),
        rm_plan(args)->Ok_0.1.len() == args.len() - rm_options_end(args),
        forall|i: int|
            rm_options_end(args) <= i < args.len() ==> rm_plan(args)->Ok_0.1.contains(args[i]),
        rm_plan(args.push(extra)) == Ok::<(RmMode, Seq<String>), Failure>(
            (rm_plan(args)->Ok_0.0, rm_plan(args)->Ok_0.1.push(extra)),
        ),
{
    reveal_strlit("-d");
    reveal_strlit("--dir");
    reveal_strlit("-r");
    reveal_strlit("--recursive");
    reveal_strlit("-R");
    let k = rm_options_end(args);
    let ext = args.push(extra);
    assert(is_dir_flag(args[2]@) || is_recursive_flag(args[2]@) ==> starts_with_dash(args[2]@));
    assert(args.len() >= 3);
    lemma_rm_flags_distinct(args[2]@);
    if is_dir_flag(args[2]@) || is_recursive_flag(args[2]@) {
        assert(args.len() >= 4);
        lemma_rm_flags_distinct(args[3]@);
    }
    assert(rm_plan(args)->Ok_0.1 == args.skip(k));
    assert(ext[2] == args[2]);
    if args.len() >= 4 {
        assert(ext[3] == args[3]);
    }
    assert forall|i: int| k <= i < args.len() implies rm_plan(args)->Ok_0.1.contains(args[i]) by {
        assert(args.skip(k)[i - k] == args[i]);
    }
    assert(ext.skip(k) =~= args.skip(k).push(extra));
    assert(ext.skip(2) =~= args.skip(2).push(extra));
    assert(ext.skip(3) =~= args.skip(3).push(extra));
    if args.len() >= 4 {
        assert(ext.skip(4) =~= args.skip(4).push(extra));
    }
}

/// What `rm` does with one path.
#[derive(Clone, Copy, Debug, PartialEq, Eq)]
pub enum RmStep {
    RemoveDir,
    RemoveTree,
    RemoveFile,
    /// Leave the directory and count it.
    SkipDir,
}

pub open spec fn rm_step_for(mode: RmMode, is_dir: bool) -> RmStep {
    match mode {
        RmMode::Dirs => RmStep::RemoveDir,
        RmMode::Trees => if is_dir {
            RmStep::RemoveTree
        } else {
            RmStep::RemoveFile
        },
        RmMode::FilesOnly => if is_dir {
            RmStep::SkipDir
        } else {
            RmStep::RemoveFile
        },
    }
}

/// Only `-r` removes a directory with what it holds, and only `-d` (alone)
/// removes paths as empty directories; a path that is not a directory is
/// removed as a file otherwise; without options directories are left.
pub proof fn law_rm_step_by_mode(mode: RmMode, is_dir: bool)
    ensures
        rm_step_for(mode, is_dir) == RmStep::RemoveTree ==> mode == RmMode::Trees && is_dir,
        rm_step_for(mode, is_dir) == RmStep::RemoveDir <==> mode == RmMode::Dirs,
        mode != RmMode::Dirs && !is_dir ==> rm_step_for(mode, is_dir) == RmStep::RemoveFile,
        rm_step_for(mode, is_dir) == RmStep::SkipDir <==> mode == RmMode::FilesOnly && is_dir,
{
}

/// What `rm` does with one path, given whether it is a directory at the
/// moment it comes up.
pub fn rm_step(mode: RmMode, is_dir: bool) -> (step: RmStep)
    ensures
        step == rm_step_for(mode, is_dir),
{
    match mode {
        RmMode::Dirs => RmStep::RemoveDir,
        RmMode::Trees => if is_dir {
            RmStep::RemoveTree
        } else {
            RmStep::RemoveFile
        },
        RmMode::FilesOnly => if is_dir {
            RmStep::SkipDir
        } else {
            RmStep::RemoveFile
        },
    }
}

/// The exit status once every path has been dealt with: -70 where
/// directories were left, none otherwise.
pub fn rm_status(skipped_dirs: usize) -> (status: Option<i32>)
    ensures
        status == (if skipped_dirs > 0 {
            Some(-70i32)
        } else {
            None
        }),
{
    if skipped_dirs > 0 {
        Some(-70)
    } else {
        None
    }
}

/// A directory to list: the current one, or one named on the command line.
#[derive(Debug, PartialEq, Eq)]
pub enum Place {
    Current,
    Named(String),
}

/// One thing `ls` does, in order.
#[derive(Debug, PartialEq, Eq)]
pub enum LsStep {
    /// Print the names in the directory that do not start with `.`.
    ListVisible(Place),
    /// Print `.` and `..`, then every name in the directory.
    ListAll(Place),
    /// Print the tree under the directory; with `.` and `..` where the flag is set.
    Recursive(String, bool),
    /// Print the line.
    Print(String),
    /// Stop with the exit status.
    Exit(i32),
    /// Stop: an argument that is read is not there.
    MissingArgument,
}

/// `-a` or `--all`.
pub open spec fn is_all_flag(s: Seq<char>) -> bool {
    s == "-a"@ || s == "--all"@
}

/// `-R` or `--recursive`.
pub open spec fn is_ls_recursive_flag(s: Seq<char>) -> bool {
    s == "-R"@ || s == "--recursive"@
}

fn all_flag(s: &str) -> (b: bool)
    ensures
        b == is_all_flag(s@),
{
    str_eq(s, "-a") || str_eq(s, "--all")
}

fn ls_recursive_flag(s: &str) -> (b: bool)
    ensures
        b == is_ls_recursive_flag(s@),
{
    str_eq(s, "-R") || str_eq(s, "--recursive")
}

/// What `ls` does after reading its first argument as a flag.
pub open spec fn ls_flag_steps(args: Seq<String>) -> Seq<LsStep>
    recommends
        args.len() >= 3,
{
    let flag = args[2]@;
    if is_all_flag(flag) {
        if args.len() == 3 {
            seq![LsStep::ListAll(Place::Current)]
        } else if is_ls_recursive_flag(args[3]@) {
            if args.len() < 5 {
                seq![LsStep::MissingArgument]
            } else {
                seq![LsStep::Recursive(args[4], true)]
            }
        } else {
            seq![LsStep::ListAll(Place::Named(args[3]))]
        }
    } else if is_ls_recursive_flag(flag) {
        if args.len() < 4 {
            seq![LsStep::MissingArgument]
        } else if is_all_flag(args[3]@) {
            if args.len() < 5 {
                seq![LsStep::MissingArgument]
            } else {
                seq![LsStep::Recursive(args[4], true)]
            }
        } else {
            seq![LsStep::Recursive(args[3], false)]
        }
    } else {
        seq![LsStep::Exit(-80i32)]
    }
}

/// What `ls` does, given which arguments name directories.
/// With no argument it lists the current directory. With exactly one that
/// names a directory it lists that directory; with exactly one that does
/// not, it prints the argument and goes on to read it as a flag. `-a`
/// lists everything, `-R` lists recursively; any other flag ends with
/// status -80.
pub open spec fn ls_plan(args: Seq<String>, arg_is_dir: Seq<bool>) -> Seq<LsStep> {
    if args.len() <= 2 {
        seq![LsStep::ListVisible(Place::Current)]
    } else if args.len() == 3 && arg_is_dir[2] {
        seq![LsStep::ListVisible(Place::Named(args[2]))]
    } else if args.len() == 3 {
        seq![LsStep::Print(args[2])] + ls_flag_steps(args)
    } else {
        ls_flag_steps(args)
    }
}

fn ls_flags(args: &Vec<String>, steps: &mut Vec<LsStep>)
    requires
        args.len() >= 3,
    ensures
        final(steps)@ == old(steps)@ + ls_flag_steps(args@),
{
    let ghost start = steps@;
    let flag = args[2].as_str();
    if all_flag(flag) {
        if args.len() == 3 {
            steps.push(LsStep::ListAll(Place::Current));
        } else if ls_recursive_flag(args[3].as_str()) {
            if args.len() < 5 {
                steps.push(LsStep::MissingArgument);
            } else {
                steps.push(LsStep::Recursive(args[4].clone(), true));
            }
        } else {
            steps.push(LsStep::ListAll(Place::Named(args[3].clone())));
        }
    } else if ls_recursive_flag(flag) {
        if args.len() < 4 {
            steps.push(LsStep::MissingArgument);
        } else if all_flag(args[3].as_str()) {
            if args.len() < 5 {
                steps.push(LsStep::MissingArgument);
            } else {
                steps.push(LsStep::Recursive(args[4].clone(), true));
            }
        } else {
            steps.push(LsStep::Recursive(args[3].clone(), false));
        }
    } else {
        steps.push(LsStep::Exit(-80));
    }
    assert(steps@ =~= start + ls_flag_steps(args@));
}

/// `ls` with a single directory lists just that directory; with no
/// argument it lists the current one; a first argument that is no flag
/// (and not a lone directory) ends with status -80, after printing it
/// where it stands alone.
pub proof fn law_ls_cases(args: Seq<String>, arg_is_dir: Seq<bool>)
    requires
        arg_is_dir.len() == args.len(),
    ensures
        args.len() <= 2 ==> ls_plan(args, arg_is_dir) == seq![LsStep::ListVisible(Place::Current)],
        args.len() == 3 && arg_is_dir[2] ==> ls_plan(args, arg_is_dir) == seq![
            LsStep::ListVisible(Place::Named(args[2])),
        ],
        args.len() >= 3 && !is_all_flag(args[2]@) && !is_ls_recursive_flag(args[2]@) && !(
        args.len() == 3 && arg_is_dir[2]) ==> ls_plan(args, arg_is_dir).last() == LsStep::Exit(
            -80i32,
        ) && ls_plan(args, arg_is_dir).len() == if args.len() == 3 {
            2int
        } else {
            1int
        },
{
}

/// `touch` of a name that does not start with `-` touches that name,
/// whatever follows it.
pub proof fn law_touch_name(args: Seq<String>)
    requires
        args.len() >= 3,
        !starts_with_dash(args[2]@),
    ensures
        touch_plan(args) == TouchPlan::Touch(args[2]),
{
}

/// `ls [-a|--all] [-R|--recursive] [DIR]`: what to list, in order.
/// `arg_is_dir[i]` tells whether `args[i]` names a directory.
pub fn ls(args: &Vec<String>, arg_is_dir: &Vec<bool>) -> (steps: Vec<LsStep>)
    requires
        arg_is_dir.len() == args.len(),
    ensures
        steps@ == ls_plan(args@, arg_is_dir@),
{
    let mut steps: Vec<LsStep> = Vec::new();
    if args.len() <= 2 {
        steps.push(LsStep::ListVisible(Place::Current));
    } else if args.len() == 3 && arg_is_dir[2] {
        steps.push(LsStep::ListVisible(Place::Named(args[2].clone())));
    } else {
        if args.len() == 3 {
            steps.push(LsStep::Print(args[2].clone()));
        }
        ls_flags(args, &mut steps);
    }
    assert(steps@ =~= ls_plan(args@, arg_is_dir@));
    steps
}

/// Whether a name is shown without `-a`: it does not start with `.`.
pub fn is_visible(name: &str) -> (visible: bool)
    ensures
        visible == !(name@.len() > 0 && name@[0] == '.'),
{
    !(name.unicode_len() > 0 && name.get_char(0) == '.')
}

/// The lines that open the recursive listing of a directory: `.` and `..`
/// where everything is listed, then the directory followed by `:`.
pub fn ls_rec_header(dir: &str, all: bool) -> (lines: Vec<String>)
    ensures
        lines@.len() == if all {
            3int
        } else {
            1int
        },
        all ==> lines@[0]@ == "."@ && lines@[1]@ == ".."@,
        lines@.last()@ == dir@ + ":"@,
{
    let mut lines: Vec<String> = Vec::new();
    if all {
        lines.push(String::from_str("."));
        lines.push(String::from_str(".."));
    }
    let mut head = String::from_str(dir);
    head.append(":");
    lines.push(head);
    lines
}

/// What `touch` does.
#[derive(Debug, PartialEq, Eq)]
pub enum TouchPlan {
    /// Create the file, emptying it where it exists.
    Touch(String),
    /// Open and read the file where it exists; create nothing.
    Access(String),
    /// Create the file, emptying it where it exists.
    Create(String),
    /// Do nothing.
    Nothing,
    /// Stop with the exit status.
    Exit(i32),
    /// Stop: an argument that is read is not there.
    MissingArgument,
}

pub open spec fn touch_plan(args: Seq<String>) -> TouchPlan {
    if args.len() < 3 {
        TouchPlan::MissingArgument
    } else if !starts_with_dash(args[2]@) {
        TouchPlan::Touch(args[2])
    } else if args[2]@ == "-a"@ {
        if args.len() < 4 {
            TouchPlan::MissingArgument
        } else {
            TouchPlan::Access(args[3])
        }
    } else if args[2]@ == "-c"@ || args[2]@ == "--no-create"@ {
        TouchPlan::Nothing
    } else if args[2]@ == "-m"@ {
        if args.len() < 4 {
            TouchPlan::MissingArgument
        } else {
            TouchPlan::Create(args[3])
        }
    } else {
        TouchPlan::Exit(-100i32)
    }
}

/// `touch FILE`, `touch -a FILE`, `touch -c|--no-create`, `touch -m FILE`;
/// any other flag ends with status -100.
pub fn touch(args: &Vec<String>) -> (plan: TouchPlan)
    ensures
        plan == touch_plan(args@),
{
    if args.len() < 3 {
        return TouchPlan::MissingArgument;
    }
    let flag = args[2].as_str();
    if !dash_first(flag) {
        TouchPlan::Touch(args[2].clone())
    } else if str_eq(flag, "-a") {
        if args.len() < 4 {
            TouchPlan::MissingArgument
        } else {
            TouchPlan::Access(args[3].clone())
        }
    } else if str_eq(flag, "-c") || str_eq(flag, "--no-create") {
        TouchPlan::Nothing
    } else if str_eq(flag, "-m") {
        if args.len() < 4 {
            TouchPlan::MissingArgument
        } else {
            TouchPlan::Create(args[3].clone())
        }
    } else {
        TouchPlan::Exit(-100)
    }
}

/// The text of each argument.
pub open spec fn arg_views(args: Seq<String>) -> Seq<Seq<char>> {
    args.map_values(|a: String| a@)
}

/// The words separated by single spaces.
pub open spec fn join_words(words: Seq<Seq<char>>) -> Seq<char>
    decreases words.len(),
{
    if words.len() == 0 {
        seq![]
    } else if words.len() == 1 {
        words[0]
    } else {
        join_words(words.drop_last()) + seq![' '] + words.last()
    }
}

/// The total number of characters of the words.
pub open spec fn total_length(words: Seq<Seq<char>>) -> int
    decreases words.len(),
{
    if words.len() == 0 {
        0
    } else {
        total_length(words.drop_last()) + words.last().len()
    }
}

/// Joining splits anywhere between two words: the words before, one space,
/// the words after.
pub proof fn law_join_splits(words: Seq<Seq<char>>, k: int)
    requires
        0 < k < words.len(),
    ensures
        join_words(words) == join_words(words.take(k)) + seq![' '] + join_words(words.skip(k)),
    decreases words.len(),
{
    let n = words.len();
    let rest = words.skip(k);
    assert(rest.drop_last() =~= words.drop_last().skip(k));
    assert(rest.last() == words.last());
    if k == n - 1 {
        assert(words.take(k) =~= words.drop_last());
        assert(rest.len() == 1);
    } else {
        law_join_splits(words.drop_last(), k);
        assert(words.drop_last().take(k) =~= words.take(k));
    }
}

/// Joined words hold every character of every word and one space between
/// each two neighbours, nothing else.
pub proof fn law_join_length(words: Seq<Seq<char>>)
    requires
        words.len() >= 1,
    ensures
        join_words(words).len() == total_length(words) + words.len() - 1,
    decreases words.len(),
{
    if words.len() > 1 {
        law_join_length(words.drop_last());
        assert(words.drop_last().last() == words[words.len() - 2]);
    } else {
        assert(words.drop_last().len() == 0);
        assert(total_length(words.drop_last()) == 0);
        assert(words.last() == words[0]);
    }
}

/// Three words join as the first, a space, the second, a space, the third.
pub proof fn law_join_three(a: Seq<char>, b: Seq<char>, c: Seq<char>)
    ensures
        join_words(seq![a, b, c]) == a + seq![' '] + b + seq![' '] + c,
{
    assert(seq![a, b, c].drop_last() =~= seq![a, b]);
    assert(seq![a, b].drop_last() =~= seq![a]);
    assert(join_words(seq![a]) == a);
    assert(join_words(seq![a, b]) == a + seq![' '] + b);
    assert(join_words(seq![a, b, c]) == join_words(seq![a, b]) + seq![' '] + c);
    assert(join_words(seq![a, b, c]) =~= a + seq![' '] + b + seq![' '] + c);
}

/// The echoed text starts with the first word and a space, followed by what
/// echoing the remaining words gives.
pub proof fn law_echo_first_word(args: Seq<String>)
    requires
        args.len() >= 4,
        args[2]@ != "-n"@,
        args[3]@ != "-n"@,
    ensures
        echo_text(args) == args[2]@ + seq![' '] + echo_text(args.remove(2)),
{
    let words = arg_views(args).skip(2);
    law_join_splits(words, 1);
    assert(words.take(1) =~= seq![args[2]@]);
    assert(words.skip(1) =~= arg_views(args.remove(2)).skip(2));
    assert(args.remove(2)[2] == args[3]);
}

/// The arguments from position `from` on, separated by single spaces.
fn join_from(args: &Vec<String>, from: usize) -> (line: String)
    requires
        from <= args.len(),
    ensures
        line@ == join_words(arg_views(args@).skip(from as int)),
{
    let ghost words = arg_views(args@);
    let mut line = String::new();
    let mut i = from;
    proof {
        reveal_strlit(" ");
    }
    while i < args.len()
        invariant
            from <= i <= args.len(),
            words == arg_views(args@),
            " "@ == seq![' '],
            line@ == join_words(words.subrange(from as int, i as int)),
        decreases args.len() - i,
    {
        let ghost before = words.subrange(from as int, i as int);
        let ghost after = words.subrange(from as int, i + 1);
        assert(after.drop_last() =~= before);
        assert(after.last() == args@[i as int]@);
        if i > from {
            line.append(" ");
        } else {
            assert(after.len() == 1);
            assert(before.len() == 0);
            assert(line@ =~= seq![]);
        }
        line.append(args[i].as_str());
        i += 1;
        assert(line@ =~= join_words(after));
    }
    assert(words.subrange(from as int, args.len() as int) =~= words.skip(from as int));
    line
}

/// What `echo` prints: the arguments separated by spaces and followed by a
/// newline, or, after `-n`, without the newline.
pub open spec fn echo_text(args: Seq<String>) -> Seq<char>
    recommends
        args.len() >= 3,
{
    if args[2]@ == "-n"@ {
        join_words(arg_views(args).skip(3))
    } else {
        join_words(arg_views(args).skip(2)) + "\n"@
    }
}

/// `-n` only drops the newline: the same words echoed without `-n` give the
/// same text followed by a newline.
pub proof fn law_echo_n_drops_newline(args: Seq<String>)
    requires
        args.len() >= 4,
        args[2]@ == "-n"@,
        args[3]@ != "-n"@,
    ensures
        echo_text(args.remove(2)) == echo_text(args) + "\n"@,
{
    assert(arg_views(args.remove(2)).skip(2) =~= arg_views(args).skip(3));
}

/// `echo [-n] WORD...`: the text to print. It needs at least one argument
/// after the command.
pub fn echo(args: &Vec<String>) -> (text: String)
    requires
        args.len() >= 3,
    ensures
        text@ == echo_text(args@),
{
    if str_eq(args[2].as_str(), "-n") {
        join_from(args, 3)
    } else {
        let mut line = join_from(args, 2);
        line.append("\n");
        line
    }
}

/// `cat FILE...`: the files to read, in order.
pub fn cat_sources(args: &Vec<String>) -> (files: Vec<String>)
    requires
        args.len() >= 2,
    ensures
        files@ == args@.skip(2),
{
    operands(args, 2)
}

/// `cat FILE...`: what it prints, the contents of the files one after the other.
pub fn cat_output(contents: &Vec<String>) -> (text: String)
    ensures
        text@ == arg_views(contents@).flatten(),
{
    let ghost parts = arg_views(contents@);
    let mut text = String::new();
    let mut i: usize = 0;
    while i < contents.len()
        invariant
            i <= contents.len(),
            parts == arg_views(contents@),
            text@ == parts.take(i as int).flatten(),
        decreases contents.len() - i,
    {
        proof {
            assert(parts.take(i + 1) =~= parts.take(i as int).push(parts[i as int]));
            parts.take(i as int).lemma_flatten_push(parts[i as int]);
        }
        text.append(contents[i].as_str());
        i += 1;
    }
    assert(parts.take(contents.len() as int) =~= parts);
    text
}

/// A single file is printed exactly as it is.
pub proof fn law_cat_one_file(content: String)
    ensures
        arg_views(seq![content]).flatten() == content@,
{
    assert(arg_views(seq![content]) =~= seq![content@]);
    seq![content@].lemma_flatten_singleton();
}

/// The output for several files is the output for the first ones followed
/// by the output for the rest.
pub proof fn law_cat_concatenates(first: Seq<String>, rest: Seq<String>)
    ensures
        arg_views(first + rest).flatten() == arg_views(first).flatten() + arg_views(rest).flatten(),
{
    assert(arg_views(first + rest) =~= arg_views(first) + arg_views(rest));
    vstd::seq_lib::lemma_flatten_concat(arg_views(first), arg_views(rest));
}

/// The file and the mode string of `chmod MODE FILE`.
#[derive(Debug, PartialEq, Eq)]
pub struct ChmodRequest {
    pub file: String,
    pub mode: String,
}

pub open spec fn chmod_request(args: Seq<String>) -> Result<ChmodRequest, Failure> {
    if args.len() < 4 {
        Err(Failure::MissingArgument)
    } else if starts_with_dash(args[2]@) {
        Err(Failure::InvalidCommand)
    } else {
        Ok(ChmodRequest { file: args[3], mode: args[2] })
    }
}

/// `chmod MODE FILE`: the file and the mode string; a mode string that
/// starts with `-` is refused.
pub fn chmod(args: &Vec<String>) -> (request: Result<ChmodRequest, Failure>)
    ensures
        request == chmod_request(args@),
{
    if args.len() < 4 {
        Err(Failure::MissingArgument)
    } else if dash_first(args[2].as_str()) {
        Err(Failure::InvalidCommand)
    } else {
        Ok(ChmodRequest { file: args[3].clone(), mode: args[2].clone() })
    }
}

/// What `cp` does.
#[derive(Debug, PartialEq, Eq)]
pub enum CpPlan {
    /// Make the directory `destination`, then copy the tree under `source`
    /// into it (see `cp_rec_rename`).
    CopyTreeRenamed { source: String, destination: String },
    /// Copy the tree under `source` below `destination` (see `cp_rec`).
    CopyTree { source: String, destination: String },
    /// Create `target`, then copy `source` onto it.
    CreateAndCopy { source: String, target: String },
    /// Copy `source` onto `target`.
    Copy { source: String, target: String },
}

/// Where a file goes when copied into the directory `dir`: the directory, a
/// `/`, and the file's last component where it has one.
pub open spec fn into_dir_target(dir: Seq<char>, source: Seq<char>) -> Seq<char> {
    dir + "/"@ + match file_name_of(source) {
        Some(name) => name,
        None => Seq::<char>::empty(),
    }
}

/// What `cp` does, given which arguments name directories.
/// `cp -r SRC DST` copies a directory tree (into a directory named `DST`,
/// made first, where `DST` holds a `/`), or copies a file into the
/// directory or onto the file `DST`. `cp SRC DST` copies a file into the
/// directory or onto the file `DST`; `cp SRC` copies `SRC` onto itself.
pub open spec fn cp_plan_is(args: Seq<String>, arg_is_dir: Seq<bool>, plan: Result<CpPlan, Failure>) -> bool {
    if args.len() < 3 {
        plan == Err::<CpPlan, Failure>(Failure::MissingArgument)
    } else if is_recursive_flag(args[2]@) {
        if args.len() < 5 {
            plan == Err::<CpPlan, Failure>(Failure::MissingArgument)
        } else if arg_is_dir[3] {
            if char_count(args[4]@, '/') != 0 {
                plan == Ok::<CpPlan, Failure>(
                    CpPlan::CopyTreeRenamed { source: args[3], destination: args[4] },
                )
            } else {
                plan == Ok::<CpPlan, Failure>(CpPlan::CopyTree { source: args[3], destination: args[4] })
            }
        } else if arg_is_dir[4] {
            plan matches Ok(CpPlan::CreateAndCopy { source, target }) && source == args[3]
                && target@ == into_dir_target(args[4]@, args[3]@)
        } else {
            plan == Ok::<CpPlan, Failure>(CpPlan::Copy { source: args[3], target: args[4] })
        }
    } else if args.len() == 3 {
        plan == Ok::<CpPlan, Failure>(CpPlan::Copy { source: args[2], target: args[2] })
    } else if arg_is_dir[3] {
        plan matches Ok(CpPlan::CreateAndCopy { source, target }) && source == args[2] && target@
            == into_dir_target(args[3]@, args[2]@)
    } else {
        plan == Ok::<CpPlan, Failure>(CpPlan::Copy { source: args[2], target: args[3] })
    }
}

/// A recursive copy of a directory goes into a new directory of the
/// destination's name exactly when the destination holds a `/`.
pub proof fn law_cp_renamed_iff_slash(args: Seq<String>, arg_is_dir: Seq<bool>, plan: Result<CpPlan, Failure>)
    requires
        args.len() >= 5,
        is_recursive_flag(args[2]@),
        arg_is_dir[3],
        cp_plan_is(args, arg_is_dir, plan),
    ensures
        plan is Ok,
        (plan->Ok_0 is CopyTreeRenamed) <==> args[4]@.contains('/'),
        !(plan->Ok_0 is CopyTreeRenamed) ==> plan->Ok_0 is CopyTree,
{
    law_contains_iff_counted(args[4]@, '/');
}

/// A file copied into a directory keeps its own name there: the target is
/// the directory, a `/`, and the last component of the source, with or
/// without `-r`. Copied onto a path that is not a directory, the target is
/// that path.
pub proof fn law_cp_into_dir_keeps_name(args: Seq<String>, arg_is_dir: Seq<bool>, plan: Result<CpPlan, Failure>)
    requires
        args.len() >= 4,
        arg_is_dir.len() == args.len(),
        cp_plan_is(args, arg_is_dir, plan),
    ensures
        is_recursive_flag(args[2]@) && args.len() >= 5 && !arg_is_dir[3] && arg_is_dir[4] ==> {
            &&& plan matches Ok(CpPlan::CreateAndCopy { source, target })
            &&& source == args[3]
            &&& target@ == args[4]@ + "/"@ + match file_name_of(args[3]@) {
                Some(name) => name,
                None => Seq::<char>::empty(),
            }
        },
        !is_recursive_flag(args[2]@) && arg_is_dir[3] ==> {
            &&& plan matches Ok(CpPlan::CreateAndCopy { source, target })
            &&& source == args[2]
            &&& target@ == args[3]@ + "/"@ + match file_name_of(args[2]@) {
                Some(name) => name,
                None => Seq::<char>::empty(),
            }
        },
        is_recursive_flag(args[2]@) && args.len() >= 5 && !arg_is_dir[3] && !arg_is_dir[4]
            ==> plan == Ok::<CpPlan, Failure>(CpPlan::Copy { source: args[3], target: args[4] }),
        !is_recursive_flag(args[2]@) && !arg_is_dir[3] ==> plan == Ok::<CpPlan, Failure>(
            CpPlan::Copy { source: args[2], target: args[3] },
        ),
{
}

/// The path a file gets when copied into a directory.
fn target_in_dir(dir: &str, source: &str) -> (target: String)
    ensures
        target@ == into_dir_target(dir@, source@),
{
    let mut target = String::from_str(dir);
    target.append("/");
    match file_name(source) {
        Some(name) => {
            target.append(name.as_str());
        },
        None => {
            assert(target@ =~= into_dir_target(dir@, source@));
        },
    }
    target
}

/// Copying a directory tree counts the `/` of the destination in an `i32`:
/// the count must fit there.
pub open spec fn cp_count_fits(args: Seq<String>, arg_is_dir: Seq<bool>) -> bool {
    (args.len() >= 5 && is_recursive_flag(args[2]@) && arg_is_dir[3]) ==> char_count(
        args[4]@,
        '/',
    ) <= i32::MAX
}

/// Whether `cp` can count the `/` of the destination (see `cp_count_fits`).
pub fn cp_count_ok(args: &Vec<String>, arg_is_dir: &Vec<bool>) -> (fits: bool)
    requires
        arg_is_dir.len() == args.len(),
    ensures
        fits == cp_count_fits(args@, arg_is_dir@),
{
    if args.len() >= 5 && recursive_flag(args[2].as_str()) && arg_is_dir[3] {
        count_char(args[4].as_str(), '/') <= 0x7fff_ffff
    } else {
        true
    }
}

/// `cp [-r|-R|--recursive] SRC DST`: what to copy where.
/// `arg_is_dir[i]` tells whether `args[i]` names a directory.
pub fn cp(args: &Vec<String>, arg_is_dir: &Vec<bool>) -> (plan: Result<CpPlan, Failure>)
    requires
        arg_is_dir.len() == args.len(),
        cp_count_fits(args@, arg_is_dir@),
    ensures
        cp_plan_is(args@, arg_is_dir@, plan),
{
    if args.len() < 3 {
        return Err(Failure::MissingArgument);
    }
    if recursive_flag(args[2].as_str()) {
        if args.len() < 5 {
            return Err(Failure::MissingArgument);
        }
        let source = args[3].as_str();
        let destination = args[4].as_str();
        if arg_is_dir[3] {
            if find_nr_char(destination, '/') != 0 {
                Ok(
                    CpPlan::CopyTreeRenamed {
                        source: args[3].clone(),
                        destination: args[4].clone(),
                    },
                )
            } else {
                Ok(CpPlan::CopyTree { source: args[3].clone(), destination: args[4].clone() })
            }
        } else if arg_is_dir[4] {
            Ok(
                CpPlan::CreateAndCopy {
                    source: args[3].clone(),
                    target: target_in_dir(destination, source),
                },
            )
        } else {
            Ok(CpPlan::Copy { source: args[3].clone(), target: args[4].clone() })
        }
    } else if args.len() == 3 {
        Ok(CpPlan::Copy { source: args[2].clone(), target: args[2].clone() })
    } else if arg_is_dir[3] {
        Ok(
            CpPlan::CreateAndCopy {
                source: args[2].clone(),
                target: target_in_dir(args[3].as_str(), args[2].as_str()),
            },
        )
    } else {
        Ok(CpPlan::Copy { source: args[2].clone(), target: args[3].clone() })
    }
}

} // verus!
