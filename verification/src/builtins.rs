//! The builtin commands: the fixed registry of names, the `echo` line, the
//! `type` report, and the path arithmetic behind `cd`.
//!
//! Everything here is pure: reading the working directory, asking the
//! platform for the home directory and actually changing directory are the
//! caller's business; the functions here decide what those operations are
//! given and what the shell says about their outcome.

use vstd::prelude::*;

use crate::text::{split_on, split_string, str_eq};
use crate::tokenizer::join_spaces;

verus! {

/// The builtin commands, dispatched by exact name match on the first token.
#[derive(Clone, Copy, PartialEq, Eq, Structural, Debug)]
pub enum Builtin {
    Echo,
    Exit,
    Type,
    Pwd,
    Cd,
}

/// The fixed set of builtin names.
pub open spec fn is_builtin_name(name: Seq<char>) -> bool {
    ||| name == "echo"@
    ||| name == "exit"@
    ||| name == "type"@
    ||| name == "pwd"@
    ||| name == "cd"@
}

/// Which builtin a builtin name denotes.
pub open spec fn builtin_of(name: Seq<char>) -> Builtin {
    if name == "echo"@ {
        Builtin::Echo
    } else if name == "exit"@ {
        Builtin::Exit
    } else if name == "type"@ {
        Builtin::Type
    } else if name == "pwd"@ {
        Builtin::Pwd
    } else {
        Builtin::Cd
    }
}

/// Whether a command name is a builtin.
pub fn is_builtin(name: &str) -> (r: bool)
    ensures
        r == is_builtin_name(name@),
{
    str_eq(name, "echo") || str_eq(name, "exit") || str_eq(name, "type") || str_eq(name, "pwd")
        || str_eq(name, "cd")
}

/// Look a command name up in the builtin registry.
pub fn builtin_lookup(name: &str) -> (r: Option<Builtin>)
    ensures
        r is Some <==> is_builtin_name(name@),
        is_builtin_name(name@) ==> r == Some(builtin_of(name@)),
{
    proof {
        reveal_strlit("echo");
        reveal_strlit("exit");
        reveal_strlit("type");
        reveal_strlit("pwd");
        reveal_strlit("cd");
    }
    if str_eq(name, "echo") {
        Some(Builtin::Echo)
    } else if str_eq(name, "exit") {
        Some(Builtin::Exit)
    } else if str_eq(name, "type") {
        Some(Builtin::Type)
    } else if str_eq(name, "pwd") {
        Some(Builtin::Pwd)
    } else if str_eq(name, "cd") {
        Some(Builtin::Cd)
    } else {
        None
    }
}

/// What `echo` prints: its arguments joined by single spaces.
pub fn echo_line(args: &Vec<String>) -> (r: String)
    ensures
        r@ == join_spaces(args.deep_view()),
{
    let ghost all = args.deep_view();
    let mut out = String::new();
    let mut i: usize = 0;
    proof {
        assert(all.take(0) =~= Seq::<Seq<char>>::empty());
    }
    while i < args.len()
        invariant
            all == args.deep_view(),
            args@.len() == all.len(),
            i <= args.len(),
            out@ == join_spaces(all.take(i as int)),
        decreases args.len() - i,
    {
        if i > 0 {
            out.append(" ");
            proof {
                reveal_strlit(" ");
                assert(" "@ =~= seq![' ']);
            }
        }
        out.append(args[i].as_str());
        proof {
            assert(all[i as int] == args@[i as int]@);
            assert(all.take(i + 1int) =~= all.take(i as int).push(all[i as int]));
            crate::tokenizer::lemma_join_spaces_snoc(all.take(i as int), all[i as int]);
        }
        i = i + 1;
    }
    proof {
        assert(all.take(args@.len() as int) =~= all);
    }
    out
}

/// What `type` reports for a name: a builtin, the resolved path of an
/// external command, or not found.
pub fn type_message(name: &str, resolved: Option<&str>) -> (r: String)
    ensures
        is_builtin_name(name@) ==> r@ == name@ + " is a shell builtin"@,
        !is_builtin_name(name@) && resolved is Some ==> r@ == name@ + " is "@ + resolved->0@,
        !is_builtin_name(name@) && resolved is None ==> r@ == name@ + ": not found"@,
{
    let mut out = String::from_str(name);
    if is_builtin(name) {
        out.append(" is a shell builtin");
    } else {
        match resolved {
            Some(p) => {
                out.append(" is ");
                out.append(p);
            },
            None => {
                out.append(": not found");
            },
        }
    }
    out
}

/// The complaint `type` makes when it is given no argument.
pub fn type_missing_message() -> (r: String)
    ensures
        r@ == "type: missing argument"@,
{
    String::from_str("type: missing argument")
}

/// One path segment applied to a stack of segments: empty and `.` segments
/// change nothing, `..` pops the last segment, anything else is pushed.
pub open spec fn apply_segment(stack: Seq<Seq<char>>, seg: Seq<char>) -> Seq<Seq<char>> {
    if seg.len() == 0 || seg == "."@ {
        stack
    } else if seg == ".."@ {
        if stack.len() == 0 {
            stack
        } else {
            stack.drop_last()
        }
    } else {
        stack.push(seg)
    }
}

/// A list of path segments applied in order.
pub open spec fn apply_segments(stack: Seq<Seq<char>>, segs: Seq<Seq<char>>) -> Seq<Seq<char>>
    decreases segs.len(),
{
    if segs.len() == 0 {
        stack
    } else {
        apply_segments(apply_segment(stack, segs[0]), segs.skip(1))
    }
}

/// Segments written as one path, each preceded by a slash.
pub open spec fn path_join(segs: Seq<Seq<char>>) -> Seq<char>
    decreases segs.len(),
{
    if segs.len() == 0 {
        Seq::empty()
    } else {
        path_join(segs.drop_last()) + seq!['/'] + segs.last()
    }
}

/// The absolute path of a segment stack; the root when it is empty.
pub open spec fn abs_path_of(segs: Seq<Seq<char>>) -> Seq<char> {
    if segs.len() == 0 {
        seq!['/']
    } else {
        path_join(segs)
    }
}

/// Where `cd` goes: an argument starting with `~` means the home directory,
/// one starting with `/` is taken verbatim, and anything else is resolved
/// against the current directory segment by segment, `.` and `..` included.
pub open spec fn cd_target_spec(dir: Seq<char>, cur: Seq<char>, home: Seq<char>) -> Seq<char> {
    if dir.len() > 0 && dir[0] == '~' {
        home
    } else if dir.len() > 0 && dir[0] == '/' {
        dir
    } else {
        abs_path_of(
            apply_segments(
                apply_segments(Seq::empty(), split_on(cur, '/')),
                split_on(dir, '/'),
            ),
        )
    }
}

/// Apply a list of path segments to a segment stack.
fn apply_segments_exec(stack: &mut Vec<String>, segs: &Vec<String>)
    ensures
        final(stack).deep_view() == apply_segments(old(stack).deep_view(), segs.deep_view()),
{
    proof {
        reveal_strlit(".");
        reveal_strlit("..");
    }
    let ghost all = segs.deep_view();
    let ghost orig = stack.deep_view();
    let mut i: usize = 0;
    proof {
        assert(all.skip(0) =~= all);
    }
    while i < segs.len()
        invariant
            all == segs.deep_view(),
            segs@.len() == all.len(),
            i <= segs.len(),
            apply_segments(orig, all) == apply_segments(stack.deep_view(), all.skip(i as int)),
        decreases segs.len() - i,
    {
        let seg = &segs[i];
        proof {
            assert(all.skip(i as int)[0] == all[i as int]);
            assert(all.skip(i as int).skip(1) =~= all.skip(i + 1int));
            assert(all[i as int] == segs@[i as int]@);
        }
        if seg.as_str().unicode_len() == 0 || str_eq(seg.as_str(), ".") {
            // nothing to do
        } else if str_eq(seg.as_str(), "..") {
            let ghost prev = stack.deep_view();
            if stack.len() > 0 {
                stack.pop();
                proof {
                    assert(stack.deep_view() =~= prev.drop_last());
                }
            }
        } else {
            let ghost prev = stack.deep_view();
            stack.push(seg.clone());
            proof {
                assert(stack.deep_view() =~= prev.push(all[i as int]));
            }
        }
        i = i + 1;
    }
    proof {
        assert(all.skip(all.len() as int) =~= Seq::<Seq<char>>::empty());
    }
}

/// Write a segment stack as an absolute path.
fn join_abs(stack: &Vec<String>) -> (r: String)
    ensures
        r@ == abs_path_of(stack.deep_view()),
{
    let ghost all = stack.deep_view();
    if stack.len() == 0 {
        let r = String::from_str("/");
        proof {
            reveal_strlit("/");
            assert(r@ =~= seq!['/']);
        }
        return r;
    }
    let mut out = String::new();
    let mut i: usize = 0;
    proof {
        assert(all.take(0) =~= Seq::<Seq<char>>::empty());
    }
    while i < stack.len()
        invariant
            all == stack.deep_view(),
            stack@.len() == all.len(),
            i <= stack.len(),
            out@ == path_join(all.take(i as int)),
        decreases stack.len() - i,
    {
        out.append("/");
        proof {
            reveal_strlit("/");
            assert("/"@ =~= seq!['/']);
        }
        out.append(stack[i].as_str());
        proof {
            assert(all[i as int] == stack@[i as int]@);
            assert(all.take(i + 1int).drop_last() =~= all.take(i as int));
            assert(all.take(i + 1int).last() == all[i as int]);
        }
        i = i + 1;
    }
    proof {
        assert(all.take(all.len() as int) =~= all);
    }
    out
}

/// The path `cd` hands to the platform, computed from the argument, the
/// current directory and the home directory.
pub fn resolve_cd_path(directory: &str, current: &str, home: &str) -> (r: String)
    ensures
        r@ == cd_target_spec(directory@, current@, home@),
{
    let n = directory.unicode_len();
    if n > 0 && directory.get_char(0) == '~' {
        String::from_str(home)
    } else if n > 0 && directory.get_char(0) == '/' {
        String::from_str(directory)
    } else {
        let mut stack: Vec<String> = Vec::new();
        let cur_segs = split_string(current, '/');
        let dir_segs = split_string(directory, '/');
        proof {
            assert(stack.deep_view() =~= Seq::<Seq<char>>::empty());
        }
        apply_segments_exec(&mut stack, &cur_segs);
        apply_segments_exec(&mut stack, &dir_segs);
        join_abs(&stack)
    }
}

/// Relies on `dirs::home_dir`: the user's home directory as the platform and
/// environment report it; absent when the platform reports none or the path
/// is not valid text. The result depends on the environment, so nothing more
/// is assumed of it.
#[verifier::external_body]
fn home_dir_string() -> (r: Option<String>) {
    dirs::home_dir().and_then(|p| p.to_str().map(|s| s.to_string()))
}

/// Whether a `cd` argument asks for the home directory.
pub open spec fn asks_for_home(dir: Seq<char>) -> bool {
    dir.len() > 0 && dir[0] == '~'
}

/// Where `cd` goes, asking the platform for the home directory when the
/// argument calls for it. `None` only when the home directory is needed and
/// the platform does not provide one.
pub fn cd_target(directory: &str, current: &str) -> (r: Option<String>)
    ensures
        !asks_for_home(directory@) ==> (r matches Some(t) && t@ == cd_target_spec(
            directory@,
            current@,
            Seq::empty(),
        )),
        r matches Some(t) ==> exists|h: Seq<char>|
            t@ == cd_target_spec(directory@, current@, h),
{
    let n = directory.unicode_len();
    if n > 0 && directory.get_char(0) == '~' {
        match home_dir_string() {
            Some(home) => {
                let t = resolve_cd_path(directory, current, home.as_str());
                proof {
                    assert(t@ == cd_target_spec(directory@, current@, home@));
                }
                Some(t)
            },
            None => None,
        }
    } else {
        let t = resolve_cd_path(directory, current, "");
        proof {
            reveal_strlit("");
            assert(""@ =~= Seq::<char>::empty());
        }
        Some(t)
    }
}

/// The diagnostic `cd` emits when the platform rejects the target: it names
/// the argument, not the resolved path.
pub open spec fn cd_error(dir: Seq<char>) -> Seq<char> {
    "cd: "@ + dir + ": No such file or directory"@
}

/// Format the `cd` failure diagnostic.
pub fn cd_error_message(directory: &str) -> (r: String)
    ensures
        r@ == cd_error(directory@),
{
    let mut out = String::from_str("cd: ");
    out.append(directory);
    out.append(": No such file or directory");
    out
}

/// The complaint `cd` makes when it is given no argument.
pub fn cd_missing_message() -> (r: String)
    ensures
        r@ == "cd: missing argument"@,
{
    String::from_str("cd: missing argument")
}

/// The shell's working directory after a `cd` attempt: the target when the
/// platform accepted the change, and otherwise the old directory, unchanged,
/// together with the diagnostic naming the rejected argument.
pub fn cd_apply(cwd: &mut String, directory: &str, target: &str, fs_accepted: bool) -> (msg:
    Option<String>)
    ensures
        fs_accepted ==> final(cwd)@ == target@ && msg is None,
        !fs_accepted ==> final(cwd)@ == old(cwd)@ && (msg matches Some(m) && m@ == cd_error(
            directory@,
        )),
{
    if fs_accepted {
        *cwd = String::from_str(target);
        None
    } else {
        Some(cd_error_message(directory))
    }
}

} // verus!
