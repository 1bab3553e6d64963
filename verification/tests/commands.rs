use lib::commands::{
    cat_output, cat_sources, chmod, cp, cp_count_ok, echo, is_visible, ln, ls, ls_rec_header, mkdir, mv,
    parse_command, rm, rm_status, rm_step, rmdir, touch, ChmodRequest, Command, CpPlan, Failure,
    FsOp, LsStep, Place, RmMode, RmStep, TouchPlan,
};

fn args(words: &[&str]) -> Vec<String> {
    words.iter().map(|w| w.to_string()).collect()
}

fn s(w: &str) -> String {
    w.to_string()
}

#[test]
fn parse_command_known_and_unknown() {
    assert_eq!(parse_command("pwd"), Some(Command::Pwd));
    assert_eq!(parse_command("echo"), Some(Command::Echo));
    assert_eq!(parse_command("ls"), Some(Command::Ls));
    assert_eq!(parse_command("cat"), Some(Command::Cat));
    assert_eq!(parse_command("mkdir"), Some(Command::Mkdir));
    assert_eq!(parse_command("mv"), Some(Command::Mv));
    assert_eq!(parse_command("ln"), Some(Command::Ln));
    assert_eq!(parse_command("rmdir"), Some(Command::Rmdir));
    assert_eq!(parse_command("rm"), Some(Command::Rm));
    assert_eq!(parse_command("touch"), Some(Command::Touch));
    assert_eq!(parse_command("cp"), Some(Command::Cp));
    assert_eq!(parse_command("chmod"), Some(Command::Chmod));
    assert_eq!(parse_command("grep"), None);
    assert_eq!(parse_command(""), None);
    assert_eq!(parse_command("LS"), None);
}

#[test]
fn failure_statuses() {
    assert_eq!(Command::Cat.failure_status(), Some(-20));
    assert_eq!(Command::Chmod.failure_status(), Some(-25));
    assert_eq!(Command::Mkdir.failure_status(), Some(-30));
    assert_eq!(Command::Mv.failure_status(), Some(-40));
    assert_eq!(Command::Ln.failure_status(), Some(-50));
    assert_eq!(Command::Rmdir.failure_status(), Some(-60));
    assert_eq!(Command::Rm.failure_status(), Some(-70));
    assert_eq!(Command::Cp.failure_status(), Some(-90));
    assert_eq!(Command::Ls.failure_status(), None);
    assert_eq!(Command::Touch.failure_status(), None);
}

#[test]
fn mkdir_each_operand() {
    assert_eq!(
        mkdir(&args(&["rb", "mkdir", "a", "b/c"])),
        vec![FsOp::CreateDir(s("a")), FsOp::CreateDir(s("b/c"))]
    );
    assert_eq!(mkdir(&args(&["rb", "mkdir"])), vec![]);
}

#[test]
fn mv_renames() {
    assert_eq!(mv(&args(&["rb", "mv", "a", "b"])), Ok(FsOp::Rename(s("a"), s("b"))));
    assert_eq!(mv(&args(&["rb", "mv", "a"])), Err(Failure::MissingArgument));
}

#[test]
fn ln_symbolic_and_hard() {
    assert_eq!(ln(&args(&["rb", "ln", "-s", "t", "l"])), Ok(FsOp::Symlink(s("t"), s("l"))));
    assert_eq!(ln(&args(&["rb", "ln", "--symbolic", "t", "l"])), Ok(FsOp::Symlink(s("t"), s("l"))));
    assert_eq!(ln(&args(&["rb", "ln", "t", "l"])), Ok(FsOp::HardLink(s("t"), s("l"))));
}

#[test]
fn ln_refused_or_short() {
    assert_eq!(ln(&args(&["rb", "ln", "t"])), Err(Failure::InvalidCommand));
    assert_eq!(ln(&args(&["rb", "ln", "t", "l", "x"])), Err(Failure::InvalidCommand));
    assert_eq!(ln(&args(&["rb", "ln", "-s", "t"])), Err(Failure::MissingArgument));
    assert_eq!(ln(&args(&["rb", "ln"])), Err(Failure::MissingArgument));
}

#[test]
fn rmdir_each_operand() {
    assert_eq!(
        rmdir(&args(&["rb", "rmdir", "a", "b"])),
        Ok(vec![FsOp::RemoveDir(s("a")), FsOp::RemoveDir(s("b"))])
    );
    assert_eq!(rmdir(&args(&["rb", "rmdir", "-s", "t", "l"])), Ok(vec![FsOp::Symlink(s("t"), s("l"))]));
    assert_eq!(rmdir(&args(&["rb", "rmdir"])), Err(Failure::MissingArgument));
    assert_eq!(rmdir(&args(&["rb", "rmdir", "-s", "t"])), Err(Failure::MissingArgument));
}

#[test]
fn rm_without_options_removes_files_only() {
    let plan = rm(&args(&["rb", "rm", "a", "b"])).unwrap();
    assert_eq!(plan.mode, RmMode::FilesOnly);
    assert_eq!(plan.targets, args(&["a", "b"]));
    assert_eq!(rm_step(RmMode::FilesOnly, true), RmStep::SkipDir);
    assert_eq!(rm_step(RmMode::FilesOnly, false), RmStep::RemoveFile);
}

#[test]
fn rm_dir_flag() {
    let plan = rm(&args(&["rb", "rm", "-d", "a", "b"])).unwrap();
    assert_eq!(plan.mode, RmMode::Dirs);
    assert_eq!(plan.targets, args(&["a", "b"]));
    assert_eq!(rm_step(RmMode::Dirs, true), RmStep::RemoveDir);
    assert_eq!(rm_step(RmMode::Dirs, false), RmStep::RemoveDir);
}

#[test]
fn rm_recursive_flags() {
    for line in [
        &["rb", "rm", "-r", "a"][..],
        &["rb", "rm", "-R", "a"][..],
        &["rb", "rm", "--recursive", "a"][..],
        &["rb", "rm", "-d", "-r", "a"][..],
        &["rb", "rm", "--dir", "-R", "a"][..],
        &["rb", "rm", "-r", "-d", "a"][..],
        &["rb", "rm", "-R", "--dir", "a"][..],
    ] {
        let plan = rm(&args(line)).unwrap();
        assert_eq!(plan.mode, RmMode::Trees);
        assert_eq!(plan.targets, args(&["a"]));
    }
    assert_eq!(rm_step(RmMode::Trees, true), RmStep::RemoveTree);
    assert_eq!(rm_step(RmMode::Trees, false), RmStep::RemoveFile);
}

#[test]
fn rm_refused_or_short() {
    assert_eq!(rm(&args(&["rb", "rm", "-r"])), Err(Failure::InvalidCommand));
    assert_eq!(rm(&args(&["rb", "rm", "-x"])), Err(Failure::InvalidCommand));
    assert_eq!(rm(&args(&["rb", "rm"])), Err(Failure::MissingArgument));
}

#[test]
fn rm_unknown_option_is_an_operand() {
    let plan = rm(&args(&["rb", "rm", "-x", "a"])).unwrap();
    assert_eq!(plan.mode, RmMode::FilesOnly);
    assert_eq!(plan.targets, args(&["-x", "a"]));
}

#[test]
fn rm_status_after_skipped_dirs() {
    assert_eq!(rm_status(0), None);
    assert_eq!(rm_status(2), Some(-70));
}

#[test]
fn ls_current_directory() {
    assert_eq!(ls(&args(&["rb", "ls"]), &vec![false, false]), vec![LsStep::ListVisible(Place::Current)]);
}

#[test]
fn ls_named_directory() {
    assert_eq!(
        ls(&args(&["rb", "ls", "dir"]), &vec![false, false, true]),
        vec![LsStep::ListVisible(Place::Named(s("dir")))]
    );
}

#[test]
fn ls_single_file_prints_then_fails() {
    assert_eq!(
        ls(&args(&["rb", "ls", "f.txt"]), &vec![false, false, false]),
        vec![LsStep::Print(s("f.txt")), LsStep::Exit(-80)]
    );
}

#[test]
fn ls_all() {
    assert_eq!(
        ls(&args(&["rb", "ls", "-a"]), &vec![false, false, false]),
        vec![LsStep::Print(s("-a")), LsStep::ListAll(Place::Current)]
    );
    assert_eq!(
        ls(&args(&["rb", "ls", "--all", "d"]), &vec![false, false, false, true]),
        vec![LsStep::ListAll(Place::Named(s("d")))]
    );
    assert_eq!(
        ls(&args(&["rb", "ls", "-a", "-R", "d"]), &vec![false; 5]),
        vec![LsStep::Recursive(s("d"), true)]
    );
    assert_eq!(ls(&args(&["rb", "ls", "-a", "-R"]), &vec![false; 4]), vec![LsStep::MissingArgument]);
}

#[test]
fn ls_recursive() {
    assert_eq!(
        ls(&args(&["rb", "ls", "-R", "d"]), &vec![false; 4]),
        vec![LsStep::Recursive(s("d"), false)]
    );
    assert_eq!(
        ls(&args(&["rb", "ls", "--recursive", "--all", "d"]), &vec![false; 5]),
        vec![LsStep::Recursive(s("d"), true)]
    );
    assert_eq!(
        ls(&args(&["rb", "ls", "-R"]), &vec![false; 3]),
        vec![LsStep::Print(s("-R")), LsStep::MissingArgument]
    );
    assert_eq!(ls(&args(&["rb", "ls", "-R", "-a"]), &vec![false; 4]), vec![LsStep::MissingArgument]);
}

#[test]
fn ls_unknown_flag() {
    assert_eq!(ls(&args(&["rb", "ls", "-l", "d"]), &vec![false; 4]), vec![LsStep::Exit(-80)]);
}

#[test]
fn visible_names() {
    assert!(is_visible("a.txt"));
    assert!(!is_visible(".hidden"));
    assert!(!is_visible("."));
    assert!(is_visible(""));
}

#[test]
fn ls_rec_header_lines() {
    assert_eq!(ls_rec_header("d", false), args(&["d:"]));
    assert_eq!(ls_rec_header("d/e", true), args(&[".", "..", "d/e:"]));
}

#[test]
fn touch_plans() {
    assert_eq!(touch(&args(&["rb", "touch", "f"])), TouchPlan::Touch(s("f")));
    assert_eq!(touch(&args(&["rb", "touch", ""])), TouchPlan::Touch(s("")));
    assert_eq!(touch(&args(&["rb", "touch", "-a", "f"])), TouchPlan::Access(s("f")));
    assert_eq!(touch(&args(&["rb", "touch", "-c"])), TouchPlan::Nothing);
    assert_eq!(touch(&args(&["rb", "touch", "--no-create", "f"])), TouchPlan::Nothing);
    assert_eq!(touch(&args(&["rb", "touch", "-m", "f"])), TouchPlan::Create(s("f")));
    assert_eq!(touch(&args(&["rb", "touch", "-z", "f"])), TouchPlan::Exit(-100));
    assert_eq!(touch(&args(&["rb", "touch", "-a"])), TouchPlan::MissingArgument);
    assert_eq!(touch(&args(&["rb", "touch"])), TouchPlan::MissingArgument);
}

#[test]
fn echo_with_newline() {
    assert_eq!(echo(&args(&["rb", "echo", "hello", "world"])), s("hello world\n"));
    assert_eq!(echo(&args(&["rb", "echo", "one"])), s("one\n"));
}

#[test]
fn echo_without_newline() {
    assert_eq!(echo(&args(&["rb", "echo", "-n", "hello", "world"])), s("hello world"));
    assert_eq!(echo(&args(&["rb", "echo", "-n"])), s(""));
}

#[test]
fn echo_n_only_drops_newline() {
    let with_n = echo(&args(&["rb", "echo", "-n", "a", "b"]));
    let without = echo(&args(&["rb", "echo", "a", "b"]));
    assert_eq!(with_n + "\n", without);
}

#[test]
fn cat_concatenates() {
    assert_eq!(cat_sources(&args(&["rb", "cat", "a", "b"])), args(&["a", "b"]));
    assert_eq!(cat_output(&args(&["x\n", "", "yz"])), s("x\nyz"));
    assert_eq!(cat_output(&args(&["only"])), s("only"));
    assert_eq!(cat_output(&vec![]), s(""));
}

#[test]
fn chmod_requests() {
    assert_eq!(
        chmod(&args(&["rb", "chmod", "u+x", "f"])),
        Ok(ChmodRequest { file: s("f"), mode: s("u+x") })
    );
    assert_eq!(chmod(&args(&["rb", "chmod", "-x", "f"])), Err(Failure::InvalidCommand));
    assert_eq!(chmod(&args(&["rb", "chmod", "u+x"])), Err(Failure::MissingArgument));
}

#[test]
fn cp_file_onto_file() {
    assert_eq!(
        cp(&args(&["rb", "cp", "a", "b"]), &vec![false; 4]),
        Ok(CpPlan::Copy { source: s("a"), target: s("b") })
    );
    assert_eq!(
        cp(&args(&["rb", "cp", "a"]), &vec![false; 3]),
        Ok(CpPlan::Copy { source: s("a"), target: s("a") })
    );
}

#[test]
fn cp_file_into_directory() {
    assert_eq!(
        cp(&args(&["rb", "cp", "x/a.txt", "d"]), &vec![false, false, false, true]),
        Ok(CpPlan::CreateAndCopy { source: s("x/a.txt"), target: s("d/a.txt") })
    );
    assert_eq!(
        cp(&args(&["rb", "cp", "..", "d"]), &vec![false, false, true, true]),
        Ok(CpPlan::CreateAndCopy { source: s(".."), target: s("d/") })
    );
}

#[test]
fn cp_recursive() {
    assert_eq!(
        cp(&args(&["rb", "cp", "-r", "src", "dst"]), &vec![false, false, false, true, false]),
        Ok(CpPlan::CopyTree { source: s("src"), destination: s("dst") })
    );
    assert_eq!(
        cp(&args(&["rb", "cp", "-R", "src", "out/dst"]), &vec![false, false, false, true, false]),
        Ok(CpPlan::CopyTreeRenamed { source: s("src"), destination: s("out/dst") })
    );
    assert_eq!(
        cp(&args(&["rb", "cp", "--recursive", "f", "d"]), &vec![false, false, false, false, true]),
        Ok(CpPlan::CreateAndCopy { source: s("f"), target: s("d/f") })
    );
    assert_eq!(
        cp(&args(&["rb", "cp", "-r", "f", "g"]), &vec![false; 5]),
        Ok(CpPlan::Copy { source: s("f"), target: s("g") })
    );
}

#[test]
fn cp_count_check() {
    assert!(cp_count_ok(&args(&["rb", "cp", "-r", "src", "a/b"]), &vec![false, false, false, true, false]));
    assert!(cp_count_ok(&args(&["rb", "cp", "a", "b"]), &vec![false; 4]));
}

#[test]
fn cp_short() {
    assert_eq!(cp(&args(&["rb", "cp"]), &vec![false; 2]), Err(Failure::MissingArgument));
    assert_eq!(cp(&args(&["rb", "cp", "-r", "a"]), &vec![false; 4]), Err(Failure::MissingArgument));
}
