//! The program's entry decisions: which mode the arguments select, the title
//! the pop-up window shows, the git hook that `init` installs, and where the
//! pop-up window is placed.
use vstd::prelude::*;
use crate::text::{chars_of, string_of};

verus! {

/// What the program does, as its first argument selects.
pub enum LaunchMode {
    /// `--brain`: analyse the last commit.
    Brain,
    /// `init`: install the git hook in the current repository.
    Init,
    /// Anything else: show the pop-up window.
    Window,
}

/// Whether two texts are equal.
pub fn same_text(a: &str, b: &str) -> (r: bool)
    ensures
        r == (a@ == b@),
{
    let x = chars_of(a);
    let y = chars_of(b);
    if x.len() != y.len() {
        return false;
    }
    let mut i: usize = 0;
    while i < x.len()
        invariant
            x@ == a@,
            y@ == b@,
            x@.len() == y@.len(),
            i <= x@.len(),
            forall|j: int| 0 <= j < i ==> x@[j] == y@[j],
        decreases x@.len() - i,
    {
        if x[i] != y[i] {
            assert(x@[i as int] != y@[i as int]);
            return false;
        }
        i = i + 1;
    }
    assert(x@ =~= y@);
    true
}

/// The mode that the program's arguments (the program's name first) select.
pub fn launch_mode(args: &Vec<String>) -> (m: LaunchMode)
    ensures
        args@.len() > 1 && args@[1]@ == "--brain"@ ==> m is Brain,
        args@.len() > 1 && args@[1]@ == "init"@ ==> m is Init,
        !(args@.len() > 1 && (args@[1]@ == "--brain"@ || args@[1]@ == "init"@)) ==> m is Window,
{
    if args.len() > 1 {
        let command = args[1].as_str();
        if same_text(command, "--brain") {
            proof {
                reveal_strlit("--brain");
                reveal_strlit("init");
                assert("--brain"@[0] != "init"@[0]);
            }
            return LaunchMode::Brain;
        } else if same_text(command, "init") {
            return LaunchMode::Init;
        }
    }
    LaunchMode::Window
}

/// The title shown when the program was started without one.
pub const TEST_TITLE: &'static str = "TEST MODE";

/// The achievement title that the pop-up window shows: the first argument,
/// or `TEST_TITLE` when there is none.
pub fn achievement_title(args: &Vec<String>) -> (t: String)
    ensures
        args@.len() > 1 ==> t@ == args@[1]@,
        args@.len() <= 1 ==> t@ == TEST_TITLE@,
{
    if args.len() > 1 {
        args[1].clone()
    } else {
        TEST_TITLE.to_owned()
    }
}

/// The program's path as a shell script names it: backslashes become
/// slashes.
pub open spec fn forward_slashes(path: Seq<char>) -> Seq<char> {
    path.map_values(|c: char| if c == '\\' { '/' } else { c })
}

/// The name by which the hook calls the program when its own path is
/// unknown.
pub const FALLBACK_PROGRAM: &'static str = "doctor-git";

/// The hook script's text before the program's path.
pub const HOOK_HEAD: &'static str = "#!/bin/sh\n# ----------------------------------------------------\n# DOCTOR GIT - Auto Gerador de Conquistas Gamificadas\n# ----------------------------------------------------\n# Gerado via 'doctor-git init'. Caminho travado para segurança.\n\n\"";

/// The hook script's text after the program's path: run the analysis in the
/// background, its output appended to a log file.
pub const HOOK_TAIL: &'static str = "\" --brain >> doctor_git_log.txt 2>&1 &\n";

/// The post-commit hook that runs `<program> --brain` in the background.
pub open spec fn hook_script(program: Seq<char>) -> Seq<char> {
    HOOK_HEAD@ + forward_slashes(program) + HOOK_TAIL@
}

/// The post-commit hook for the program at `exe_path` (`None` when the
/// program's own path is unknown, and `FALLBACK_PROGRAM` stands for it).
pub fn post_commit_hook(exe_path: Option<&str>) -> (s: String)
    ensures
        s@ == hook_script(
            match exe_path {
                Some(p) => p@,
                None => FALLBACK_PROGRAM@,
            },
        ),
{
    let path = match exe_path {
        Some(p) => p,
        None => FALLBACK_PROGRAM,
    };
    let v = chars_of(path);
    let mut w: Vec<char> = Vec::new();
    let mut i: usize = 0;
    while i < v.len()
        invariant
            i <= v@.len(),
            w@ == forward_slashes(v@.take(i as int)),
        decreases v@.len() - i,
    {
        let c = v[i];
        if c == '\\' {
            w.push('/');
        } else {
            w.push(c);
        }
        assert(forward_slashes(v@.take(i + 1)) =~= forward_slashes(v@.take(i as int)).push(
            if c == '\\' {
                '/'
            } else {
                c
            },
        ));
        i = i + 1;
    }
    assert(v@.take(v@.len() as int) =~= v@);
    let mut s = HOOK_HEAD.to_owned();
    s.append(string_of(&w).as_str());
    s.append(HOOK_TAIL);
    s
}

/// The program's path in a hook script holds no backslash.
pub proof fn law_hook_path_has_no_backslash(program: Seq<char>)
    ensures
        forall|i: int| 0 <= i < forward_slashes(program).len() ==> #[trigger] forward_slashes(program)[i] != '\\',
        forward_slashes(program).len() == program.len(),
{
}

/// Where the pop-up window's top-left corner goes: `margin` pixels from the
/// right edge of the screen and `margin + taskbar` from its bottom, or at the
/// left or top edge when the window is too large for that.
pub fn window_position(
    screen_width: u32,
    screen_height: u32,
    window_width: u32,
    window_height: u32,
    margin: u32,
    taskbar: u32,
) -> (p: (u32, u32))
    requires
        window_width + margin <= u32::MAX,
        window_height + margin + taskbar <= u32::MAX,
    ensures
        p.0 == (if screen_width >= window_width + margin {
            screen_width - window_width - margin
        } else {
            0
        }),
        p.1 == (if screen_height >= window_height + margin + taskbar {
            screen_height - window_height - margin - taskbar
        } else {
            0
        }),
{
    let x = screen_width.saturating_sub(window_width + margin);
    let y = screen_height.saturating_sub(window_height + margin + taskbar);
    (x, y)
}

/// A placed window that is not pushed to the left edge ends `margin` pixels
/// before the screen's right edge.
pub proof fn law_window_keeps_margin(
    screen_width: u32,
    window_width: u32,
    margin: u32,
    x: u32,
)
    requires
        window_width + margin <= u32::MAX,
        x == (if screen_width >= window_width + margin {
            screen_width - window_width - margin
        } else {
            0
        }),
    ensures
        x > 0 ==> x + window_width + margin == screen_width,
        x + window_width + margin <= screen_width || x == 0,
{
}

} // verus!
