//! Deciding how to open a shortcut's target: URLs with the default handler,
//! and per platform either a direct process spawn or the desktop's opener.
//! Carrying out the plan (spawning, shell calls) is left to the caller.

use vstd::prelude::*;
use crate::ranking::texts_view;
use crate::text::{
    ascii_lower, chars_of, eq_ignore_ascii_case, equal_ignoring_ascii_case, is_white_space, is_white_space_char,
    starts_with_text,
};

verus! {

/// The words of `s` as `str::split_whitespace` yields them: the maximal
/// runs of characters that are not Unicode white space, in order.
pub open spec fn whitespace_words(s: Seq<char>) -> Seq<Seq<char>>
    decreases s.len(),
{
    if s.len() == 0 {
        Seq::empty()
    } else {
        let before = whitespace_words(s.drop_last());
        let c = s.last();
        if is_white_space(c) {
            before
        } else if s.len() >= 2 && !is_white_space(s[s.len() - 2]) {
            before.update(before.len() - 1, before.last().push(c))
        } else {
            before.push(seq![c])
        }
    }
}

/// What `Path::extension` yields for a path on the platform the library is
/// built for: the part of the file name after its last '.', if any.
pub uninterp spec fn path_extension(s: Seq<char>) -> Option<Seq<char>>;

/// The words of `s`: its maximal runs of characters that are not Unicode
/// white space, in order (what `str::split_whitespace` yields).
pub fn split_whitespace(s: &str) -> (r: Vec<String>)
    ensures
        texts_view(r@) == whitespace_words(s@),
{
    let cs = chars_of(s);
    let n = cs.len();
    let mut words: Vec<String> = Vec::new();
    let mut in_word = false;
    let mut start: usize = 0;
    let mut i: usize = 0;
    assert(s@.take(0) =~= Seq::<char>::empty());
    assert(texts_view(words@) =~= Seq::<Seq<char>>::empty());
    while i < n
        invariant
            cs@ == s@,
            n == cs.len(),
            start <= i <= n,
            in_word <==> (i > 0 && !is_white_space(s@[i - 1])),
            in_word ==> start < i && whitespace_words(s@.take(i as int)) =~~= texts_view(words@).push(
                s@.subrange(start as int, i as int),
            ),
            !in_word ==> whitespace_words(s@.take(i as int)) =~~= texts_view(words@),
        decreases n - i,
    {
        let ghost before = texts_view(words@);
        let ghost cur = s@.subrange(start as int, i as int);
        let ghost pre = s@.take(i + 1);
        assert(pre.drop_last() =~= s@.take(i as int));
        assert(pre.last() == s@[i as int]);
        if i > 0 {
            assert(pre[pre.len() - 2] == s@[i - 1]);
        }
        if is_white_space_char(cs[i]) {
            if in_word {
                let word = s.substring_char(start, i).to_owned();
                words.push(word);
                assert(texts_view(words@) =~~= before.push(cur));
            }
            in_word = false;
        } else {
            if in_word {
                assert(s@.subrange(start as int, i + 1) =~= cur.push(s@[i as int]));
                assert(before.push(cur).update(before.len() as int, cur.push(s@[i as int])) =~~= before.push(
                    s@.subrange(start as int, i + 1),
                ));
            } else {
                start = i;
                in_word = true;
                assert(s@.subrange(i as int, i + 1) =~= seq![s@[i as int]]);
                assert(before.push(seq![s@[i as int]]) =~~= before.push(s@.subrange(i as int, i + 1)));
            }
        }
        i += 1;
    }
    assert(s@.take(n as int) =~= s@);
    if in_word {
        let ghost before = texts_view(words@);
        let word = s.substring_char(start, n).to_owned();
        words.push(word);
        assert(texts_view(words@) =~~= before.push(s@.subrange(start as int, n as int)));
    }
    words
}

/// Calls `std::path::Path::extension`. Claimed: the result is the named
/// extension of the argument (exact as text, being part of a UTF-8 path).
#[verifier::external_body]
fn extension_of(path: &str) -> (r: Option<String>)
    ensures
        match r {
            Some(e) => path_extension(path@) == Some(e@),
            None => path_extension(path@) is None,
        },
{
    std::path::Path::new(path).extension().map(|e| e.to_string_lossy().into_owned())
}

/// Why launching failed.
#[derive(Debug, PartialEq, Eq)]
pub enum LaunchError {
    /// The system refused an operation; holds its message.
    Io(String),
    /// The platform's opener reported a failure; holds the detail.
    Failed(String),
}

impl LaunchError {
    /// The text of the message shown for this error.
    pub open spec fn message_text(&self) -> Seq<char> {
        match self {
            LaunchError::Io(m) => "IO error: "@ + m@,
            LaunchError::Failed(m) => "Failed to launch: "@ + m@,
        }
    }

    /// The message shown for this error.
    pub fn message(&self) -> (r: String)
        ensures
            r@ == self.message_text(),
    {
        let mut s = String::new();
        match self {
            LaunchError::Io(m) => {
                s.append("IO error: ");
                s.append(m.as_str());
            },
            LaunchError::Failed(m) => {
                s.append("Failed to launch: ");
                s.append(m.as_str());
            },
        }
        s
    }
}

/// The platform a launch is planned for.
#[derive(Clone, Copy, Debug, PartialEq, Eq, Structural)]
pub enum Platform {
    Windows,
    MacOs,
    Linux,
    Other,
}

/// What the file system says about a target (used on Linux).
#[derive(Clone, Copy, Debug)]
pub struct TargetProbe {
    pub exists: bool,
    pub is_dir: bool,
    /// The Unix permission bits, when they could be read.
    pub mode: Option<u32>,
}

/// How to open a target.
#[derive(Debug, PartialEq, Eq)]
pub enum LaunchPlan {
    /// Open with the system's default handler (`open::that`).
    OpenUrl(String),
    /// Start `program` with `args`, in a new console when asked (Windows).
    Spawn { program: String, args: Vec<String>, new_console: bool },
    /// Hand the target to the Windows shell, with optional parameters.
    ShellOpen { target: String, parameters: Option<String> },
    /// Nothing to do on this platform.
    Nothing,
}

/// The content of a `LaunchPlan`.
pub enum LaunchPlanView {
    OpenUrl(Seq<char>),
    Spawn { program: Seq<char>, args: Seq<Seq<char>>, new_console: bool },
    ShellOpen { target: Seq<char>, parameters: Option<Seq<char>> },
    Nothing,
}

impl View for LaunchPlan {
    type V = LaunchPlanView;

    open spec fn view(&self) -> LaunchPlanView {
        match self {
            LaunchPlan::OpenUrl(t) => LaunchPlanView::OpenUrl(t@),
            LaunchPlan::Spawn { program, args, new_console } => LaunchPlanView::Spawn {
                program: program@,
                args: texts_view(args@),
                new_console: *new_console,
            },
            LaunchPlan::ShellOpen { target, parameters } => LaunchPlanView::ShellOpen {
                target: target@,
                parameters: match parameters {
                    Some(p) => Some(p@),
                    None => None,
                },
            },
            LaunchPlan::Nothing => LaunchPlanView::Nothing,
        }
    }
}

/// The target is a link for the default handler: a web address
/// ("http://", "https://") or a mail address ("mailto:").
pub open spec fn is_url(target: Seq<char>) -> bool {
    "http://"@.is_prefix_of(target) || "https://"@.is_prefix_of(target) || "mailto:"@.is_prefix_of(
        target,
    )
}

/// An extension that marks a Windows executable: "exe", in any ASCII case.
pub open spec fn is_exe_extension(extension: Option<Seq<char>>) -> bool {
    match extension {
        Some(e) => equal_ignoring_ascii_case(e, "exe"@),
        None => false,
    }
}

/// The probed target exists, is no directory, and has an execute bit set.
pub open spec fn is_executable(probe: TargetProbe) -> bool {
    probe.exists && !probe.is_dir && match probe.mode {
        Some(m) => m & 0o111u32 != 0,
        None => false,
    }
}

/// The plan for opening `target` with arguments `args`, given the
/// target's extension and the words of the arguments.
pub open spec fn planned_launch_from(
    target: Seq<char>,
    args: Seq<char>,
    extension: Option<Seq<char>>,
    words: Seq<Seq<char>>,
    platform: Platform,
    probe: TargetProbe,
) -> LaunchPlanView {
    if is_url(target) {
        LaunchPlanView::OpenUrl(target)
    } else {
        match platform {
            Platform::Windows => if is_exe_extension(extension) && args.len() > 0 {
                LaunchPlanView::Spawn { program: target, args: words, new_console: true }
            } else {
                LaunchPlanView::ShellOpen {
                    target,
                    parameters: if args.len() == 0 {
                        None
                    } else {
                        Some(args)
                    },
                }
            },
            Platform::MacOs => LaunchPlanView::Spawn {
                program: "open"@,
                args: if args.len() == 0 {
                    seq![target]
                } else {
                    seq![target, "--args"@] + words
                },
                new_console: false,
            },
            Platform::Linux => if probe.is_dir || (!is_executable(probe) && probe.exists) {
                LaunchPlanView::Spawn { program: "xdg-open"@, args: seq![target], new_console: false }
            } else {
                LaunchPlanView::Spawn {
                    program: target,
                    args: if args.len() == 0 {
                        Seq::empty()
                    } else {
                        words
                    },
                    new_console: false,
                }
            },
            Platform::Other => LaunchPlanView::Nothing,
        }
    }
}

/// The plan for opening `target` with arguments `args`.
pub open spec fn planned_launch(target: Seq<char>, args: Seq<char>, platform: Platform, probe: TargetProbe) -> LaunchPlanView {
    planned_launch_from(target, args, path_extension(target), whitespace_words(args), platform, probe)
}

/// Whether `target` is a link for the default handler.
pub fn target_is_url(target: &str) -> (r: bool)
    ensures
        r == is_url(target@),
{
    starts_with_text(target, "http://") || starts_with_text(target, "https://") || starts_with_text(
        target,
        "mailto:",
    )
}

/// Whether an extension marks a Windows executable.
pub fn extension_is_exe(extension: Option<&str>) -> (r: bool)
    ensures
        r == is_exe_extension(match extension {
            Some(e) => Some(e@),
            None => None,
        }),
{
    match extension {
        Some(e) => eq_ignore_ascii_case(e, "exe"),
        None => false,
    }
}

/// Whether the probed target can be executed directly.
pub fn probe_is_executable(probe: TargetProbe) -> (r: bool)
    ensures
        r == is_executable(probe),
{
    probe.exists && !probe.is_dir && match probe.mode {
        Some(m) => m & 0o111u32 != 0,
        None => false,
    }
}

/// Decides how to open `target` with `args` on `platform`.
pub fn plan_launch(target: &str, args: &str, platform: Platform, probe: TargetProbe) -> (r: LaunchPlan)
    ensures
        r@ == planned_launch(target@, args@, platform, probe),
{
    let extension = extension_of(target);
    let words = split_whitespace(args);
    match &extension {
        Some(e) => plan_launch_from(target, args, Some(e.as_str()), words, platform, probe),
        None => plan_launch_from(target, args, None, words, platform, probe),
    }
}

/// Decides how to open `target` with `args` on `platform`, given the
/// target's extension and the words of `args`.
pub fn plan_launch_from(
    target: &str,
    args: &str,
    extension: Option<&str>,
    words: Vec<String>,
    platform: Platform,
    probe: TargetProbe,
) -> (r: LaunchPlan)
    ensures
        r@ == planned_launch_from(
            target@,
            args@,
            match extension {
                Some(e) => Some(e@),
                None => None,
            },
            texts_view(words@),
            platform,
            probe,
        ),
{
    if target_is_url(target) {
        return LaunchPlan::OpenUrl(target.to_owned());
    }
    proof {
        reveal_strlit("open");
        reveal_strlit("--args");
        reveal_strlit("xdg-open");
    }
    match platform {
        Platform::Windows => {
            if extension_is_exe(extension) && !args.is_empty() {
                LaunchPlan::Spawn { program: target.to_owned(), args: words, new_console: true }
            } else {
                let parameters = if args.is_empty() {
                    None
                } else {
                    Some(args.to_owned())
                };
                LaunchPlan::ShellOpen { target: target.to_owned(), parameters }
            }
        },
        Platform::MacOs => {
            let mut list: Vec<String> = Vec::new();
            list.push(target.to_owned());
            if !args.is_empty() {
                list.push("--args".to_owned());
                let mut rest = words;
                let ghost head = list@;
                let ghost tail = rest@;
                list.append(&mut rest);
                assert(texts_view(list@) =~= seq![target@, "--args"@] + texts_view(tail)) by {
                    assert(list@ == head + tail);
                }
            } else {
                assert(texts_view(list@) =~= seq![target@]);
            }
            LaunchPlan::Spawn { program: "open".to_owned(), args: list, new_console: false }
        },
        Platform::Linux => {
            if probe.is_dir || (!probe_is_executable(probe) && probe.exists) {
                let mut list: Vec<String> = Vec::new();
                list.push(target.to_owned());
                assert(texts_view(list@) =~= seq![target@]);
                LaunchPlan::Spawn { program: "xdg-open".to_owned(), args: list, new_console: false }
            } else {
                let list = if args.is_empty() {
                    let v: Vec<String> = Vec::new();
                    assert(texts_view(v@) =~= Seq::<Seq<char>>::empty());
                    v
                } else {
                    words
                };
                LaunchPlan::Spawn { program: target.to_owned(), args: list, new_console: false }
            }
        },
        Platform::Other => LaunchPlan::Nothing,
    }
}

/// Whether a `ShellExecuteW` return code means success (codes up to 32 are
/// errors).
pub fn shell_execute_succeeded(code: isize) -> (r: bool)
    ensures
        r == (code > 32),
{
    code > 32
}


/// On Linux, a target that is no web or mail link is handed to "xdg-open"
/// when it is a directory or an existing file without any execute
/// permission bit; a missing target or an executable file is started
/// itself, with the argument words (none when there are no arguments).
pub proof fn law_linux_opens_or_runs(
    target: Seq<char>,
    args: Seq<char>,
    extension: Option<Seq<char>>,
    words: Seq<Seq<char>>,
    probe: TargetProbe,
)
    requires
        !"http://"@.is_prefix_of(target),
        !"https://"@.is_prefix_of(target),
        !"mailto:"@.is_prefix_of(target),
    ensures
        ({
            let plan = planned_launch_from(target, args, extension, words, Platform::Linux, probe);
            let runnable = probe.exists && !probe.is_dir && (probe.mode matches Some(m) && m & 0o111u32 != 0);
            &&& (probe.is_dir || (probe.exists && !runnable)) ==> plan == LaunchPlanView::Spawn {
                program: "xdg-open"@,
                args: seq![target],
                new_console: false,
            }
            &&& (!probe.is_dir && (!probe.exists || runnable)) ==> plan == LaunchPlanView::Spawn {
                program: target,
                args: if args.len() == 0 {
                    Seq::empty()
                } else {
                    words
                },
                new_console: false,
            }
        }),
{
}

/// On macOS every target that is no web or mail link goes to "open"; the
/// argument words follow a "--args" marker when there are any.
pub proof fn law_macos_uses_open(
    target: Seq<char>,
    args: Seq<char>,
    extension: Option<Seq<char>>,
    words: Seq<Seq<char>>,
    probe: TargetProbe,
)
    requires
        !"http://"@.is_prefix_of(target),
        !"https://"@.is_prefix_of(target),
        !"mailto:"@.is_prefix_of(target),
    ensures
        ({
            let plan = planned_launch_from(target, args, extension, words, Platform::MacOs, probe);
            &&& plan is Spawn
            &&& plan->program == "open"@
            &&& !plan->new_console
            &&& plan->Spawn_args[0] == target
            &&& args.len() == 0 ==> plan->Spawn_args.len() == 1
            &&& args.len() > 0 ==> plan->Spawn_args.len() == words.len() + 2 && plan->Spawn_args[1] == "--args"@
                && plan->Spawn_args.subrange(2, words.len() as int + 2) == words
        }),
{
    let plan = planned_launch_from(target, args, extension, words, Platform::MacOs, probe);
    if args.len() > 0 {
        assert(plan->Spawn_args.subrange(2, words.len() as int + 2) =~= words);
    }
}

/// Web and mail links are opened with the default handler, whatever the
/// platform, the arguments and the file system say.
pub proof fn law_urls_open_with_default_handler(target: Seq<char>, args: Seq<char>, platform: Platform, probe: TargetProbe)
    requires
        is_url(target),
    ensures
        planned_launch(target, args, platform, probe) == LaunchPlanView::OpenUrl(target),
{
}

/// A character that lowers (ASCII) to the lowercase letter `t` is `t` or
/// its uppercase letter.
proof fn lemma_lower_letter(c: char, t: char)
    requires
        'a' <= t && t <= 'z',
        ascii_lower(c) == ascii_lower(t),
    ensures
        c == t || (c as u32) + 32 == t as u32,
{
    assert('A' <= c && c <= 'Z' ==> ((c as u32) + 32) as u32 == (c as u32) + 32);
}

/// On Windows, a target that is no web or mail link goes to the shell
/// (parameters only when there are arguments), except an executable (".exe"
/// in any ASCII case) started with arguments, which is spawned in a new
/// console with the argument words.
pub proof fn law_windows_shell_opens_all_but_exe_with_args(
    target: Seq<char>,
    args: Seq<char>,
    extension: Option<Seq<char>>,
    words: Seq<Seq<char>>,
    probe: TargetProbe,
)
    requires
        !"http://"@.is_prefix_of(target),
        !"https://"@.is_prefix_of(target),
        !"mailto:"@.is_prefix_of(target),
    ensures
        ({
            let exe = extension matches Some(e) && e.len() == 3 && (e[0] == 'e' || e[0] == 'E') && (e[1] == 'x'
                || e[1] == 'X') && (e[2] == 'e' || e[2] == 'E');
            let plan = planned_launch_from(target, args, extension, words, Platform::Windows, probe);
            &&& !exe ==> plan == LaunchPlanView::ShellOpen {
                target,
                parameters: if args.len() == 0 {
                    None
                } else {
                    Some(args)
                },
            }
            &&& args.len() == 0 ==> plan == LaunchPlanView::ShellOpen { target, parameters: None }
            &&& exe && args.len() > 0 ==> plan == LaunchPlanView::Spawn {
                program: target,
                args: words,
                new_console: true,
            }
        }),
{
    reveal_strlit("exe");
    assert("exe"@ =~= seq!['e', 'x', 'e']);
    if let Some(e) = extension {
        if equal_ignoring_ascii_case(e, "exe"@) {
            assert(e.len() == 3);
            assert(ascii_lower(e[0]) == ascii_lower("exe"@[0]));
            assert(ascii_lower(e[1]) == ascii_lower("exe"@[1]));
            assert(ascii_lower(e[2]) == ascii_lower("exe"@[2]));
            lemma_lower_letter(e[0], 'e');
            lemma_lower_letter(e[1], 'x');
            lemma_lower_letter(e[2], 'e');
        }
        if e.len() == 3 && (e[0] == 'e' || e[0] == 'E') && (e[1] == 'x' || e[1] == 'X') && (e[2] == 'e'
            || e[2] == 'E') {
            assert forall|i: int| 0 <= i < e.len() implies ascii_lower(#[trigger] e[i]) == ascii_lower(
                "exe"@[i],
            ) by {
                if i == 0 {
                } else if i == 1 {
                } else {
                }
            }
        }
    }
}

} // verus!
