//! The compiler's command line: its configuration from the arguments and
//! the source file, and the texts it shows the user.

use vstd::prelude::*;
use vstd::string::*;
use crate::report::{
    cyan_code, green_code, paint_cyan, paint_green, paint_red, paint_yellow, painted, red_code,
    yellow_code,
};
use crate::source::{strip_comments, strip_comments_spec};
use crate::text::{append_str, repeat_char, repeated};

verus! {

/// What the compiler works on: the source file, the binary to write and
/// the source text without comments.
pub struct Config {
    pub input: String,
    pub output: String,
    pub source: String,
}

/// The error for a command line with fewer than two operands.
pub open spec fn msg_few_arguments() -> Seq<char> {
    "Not enough arguments! See `Usage`."@
}

/// The error for a source file that could not be read.
pub open spec fn msg_unreadable_source() -> Seq<char> {
    "Error with parsing source code! Check file and try again."@
}

impl Config {
    /// The configuration for the command line `arguments` (the program's
    /// name first), given what reading the file `arguments[1]` gave: its
    /// text, or `None` when it could not be read. With fewer than three
    /// arguments the file is not read and `read` is not looked at.
    pub fn from_arguments(arguments: &Vec<String>, read: Option<String>) -> (r: Result<
        Config,
        String,
    >)
        ensures
            arguments.len() < 3 ==> (r matches Err(e) && e@ == msg_few_arguments()),
            arguments.len() >= 3 && read is None ==> (r matches Err(e) && e@
                == msg_unreadable_source()),
            arguments.len() >= 3 && read is Some ==> (r matches Ok(c) && c.input@
                == arguments@[1]@ && c.output@ == arguments@[2]@ && c.source@
                == strip_comments_spec(read->0@)),
    {
        if arguments.len() < 3 {
            return Err(String::from_str("Not enough arguments! See `Usage`."));
        }
        match read {
            None => Err(
                String::from_str("Error with parsing source code! Check file and try again."),
            ),
            Some(text) => {
                let source = strip_comments(text.as_str());
                Ok(Config { input: arguments[1].clone(), output: arguments[2].clone(), source })
            },
        }
    }
}

/// The greeting before it is painted cyan: the project's name, its
/// version and its repository.
pub open spec fn greeting_plain(version: Seq<char>) -> Seq<char> {
    "| tpl-lang - "@ + version + "\n| https://github.com/mealet/tpl-lang"@
}

/// The greeting shown at start: name, version and repository, in cyan.
pub fn greeting_text(version: &str) -> (r: String)
    ensures
        painted(greeting_plain(version@), cyan_code(), r@),
{
    let mut s = String::from_str("| tpl-lang - ");
    append_str(&mut s, version);
    append_str(&mut s, "\n| https://github.com/mealet/tpl-lang");
    assert(s@ =~= greeting_plain(version@));
    paint_cyan(s.as_str())
}

/// The usage lines for a given rendering of the two example commands.
pub open spec fn usage_with(usage: Seq<char>, example: Seq<char>) -> Seq<char> {
    "| Usage: "@ + usage + "\n| Example: "@ + example
}

/// How to call the compiler `package`, the commands in yellow.
pub fn usage_text(package: &str) -> (r: String)
    ensures
        exists|usage: Seq<char>, example: Seq<char>|
            {
                &&& painted(package@ + " [input] [output]"@, yellow_code(), usage)
                &&& painted(package@ + " example.tpl output"@, yellow_code(), example)
                &&& r@ == #[trigger] usage_with(usage, example)
            },
{
    let mut u = String::from_str(package);
    append_str(&mut u, " [input] [output]");
    let mut e = String::from_str(package);
    append_str(&mut e, " example.tpl output");
    let usage = paint_yellow(u.as_str());
    let example = paint_yellow(e.as_str());
    let mut s = String::from_str("| Usage: ");
    append_str(&mut s, usage.as_str());
    append_str(&mut s, "\n| Example: ");
    append_str(&mut s, example.as_str());
    assert(s@ =~= usage_with(usage@, example@));
    s
}

/// The line that shows a command line error, `error:` in red.
pub fn error_line(message: &str) -> (r: String)
    ensures
        exists|label: Seq<char>|
            painted("error:"@, red_code(), label) && r@ == "| "@ + label + " "@ + message@,
{
    let label = paint_red("error:");
    let mut s = String::from_str("| ");
    append_str(&mut s, label.as_str());
    append_str(&mut s, " ");
    append_str(&mut s, message);
    assert(s@ =~= "| "@ + label@ + " "@ + message@);
    s
}

/// `s` holds `pat` somewhere.
pub open spec fn holds_text(s: Seq<char>, pat: Seq<char>) -> bool {
    exists|k: int| 0 <= k && k + pat.len() <= s.len() && #[trigger] s.subrange(k, k + pat.len()) == pat
}

/// Whether `s` holds `pat` (`str::contains`).
pub fn contains_text(s: &str, pat: &str) -> (r: bool)
    ensures
        r == holds_text(s@, pat@),
{
    let n = s.unicode_len();
    let m = pat.unicode_len();
    if m > n {
        proof {
            assert forall|k: int| 0 <= k && k + m <= n implies #[trigger] s@.subrange(k, k + m)
                != pat@ by {}
        }
        return false;
    }
    let mut k: usize = 0;
    while k <= n - m
        invariant
            n == s@.len(),
            m == pat@.len(),
            m <= n,
            k <= n - m + 1,
            forall|j: int| 0 <= j < k ==> #[trigger] s@.subrange(j, j + m) != pat@,
        decreases n - k,
    {
        let mut i: usize = 0;
        let mut same = true;
        while i < m
            invariant
                n == s@.len(),
                m == pat@.len(),
                k + m <= n,
                i <= m,
                same == forall|t: int| 0 <= t < i ==> s@[k + t] == pat@[t],
            decreases m - i,
        {
            if s.get_char(k + i) != pat.get_char(i) {
                same = false;
            }
            i = i + 1;
        }
        if same {
            assert(s@.subrange(k as int, k + m) =~= pat@);
            return true;
        }
        assert(s@.subrange(k as int, k + m) != pat@) by {
            let t = choose|t: int| 0 <= t < m && s@[k + t] != pat@[t];
            assert(s@.subrange(k as int, k + m)[t] == s@[k + t]);
        }
        k = k + 1;
    }
    false
}

/// The binary's path: on Windows `.exe` is added unless the name holds it.
pub open spec fn binary_path(output: Seq<char>, windows: bool) -> Seq<char> {
    if windows && !holds_text(output, ".exe"@) {
        output + ".exe"@
    } else {
        output
    }
}

/// The object file the module is written to before linking.
pub fn object_file(output: &str) -> (r: String)
    ensures
        r@ == output@ + ".o"@,
{
    let mut s = String::from_str(output);
    append_str(&mut s, ".o");
    s
}

/// The message after linking succeeded, for given renderings of its two
/// green labels.
pub open spec fn link_success_with(module: Seq<char>, arrow: Seq<char>, output: Seq<char>) -> Seq<
    char,
> {
    module + " Compilation successful!\n"@ + arrow + " "@ + output
}

/// The message after linking failed, for a given rendering of its red
/// label; the next lines are indented by the label's length.
pub open spec fn link_failure_with(module: Seq<char>) -> Seq<char> {
    module + " Compilation error!\n"@ + repeated(' ', 15)
        + " Maybe you forgot to install clang/gcc/cc or any other C compiler?\n"@ + repeated(
        ' ',
        15,
    ) + " Otherwise, please open issue at language repo's."@
}

/// Links object files into binaries with the system's C compiler.
pub struct ObjectLinker;

impl ObjectLinker {
    /// The path the linker writes the binary to, for `output_file` on a
    /// Windows system or another.
    pub fn output_path(output_file: &str, windows: bool) -> (r: String)
        ensures
            r@ == binary_path(output_file@, windows),
    {
        let mut s = String::from_str(output_file);
        if windows && !contains_text(output_file, ".exe") {
            append_str(&mut s, ".exe");
        }
        s
    }

    /// The message shown after linking `output_file`, successful or not.
    pub fn report(success: bool, output_file: &str) -> (r: String)
        ensures
            success ==> exists|module: Seq<char>, arrow: Seq<char>|
                {
                    &&& painted("[Compiler]"@, green_code(), module)
                    &&& painted("|-> output binary:"@, green_code(), arrow)
                    &&& r@ == #[trigger] link_success_with(module, arrow, output_file@)
                },
            !success ==> exists|module: Seq<char>|
                painted("[CompilerError]"@, red_code(), module) && r@ == #[trigger] link_failure_with(
                    module,
                ),
    {
        if success {
            let module = paint_green("[Compiler]");
            let arrow = paint_green("|-> output binary:");
            let mut s = String::from_str(module.as_str());
            append_str(&mut s, " Compilation successful!\n");
            append_str(&mut s, arrow.as_str());
            append_str(&mut s, " ");
            append_str(&mut s, output_file);
            assert(s@ =~= link_success_with(module@, arrow@, output_file@));
            s
        } else {
            let module = paint_red("[CompilerError]");
            let pad = repeat_char(' ', 15);
            let mut s = String::from_str(module.as_str());
            append_str(&mut s, " Compilation error!\n");
            append_str(&mut s, pad.as_str());
            append_str(
                &mut s,
                " Maybe you forgot to install clang/gcc/cc or any other C compiler?\n",
            );
            append_str(&mut s, pad.as_str());
            append_str(&mut s, " Otherwise, please open issue at language repo's.");
            assert(s@ =~= link_failure_with(module@));
            s
        }
    }
}

} // verus!
