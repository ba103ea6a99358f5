//! Recording a shell session: which shell is running, how it is started and
//! set up so that its prompt is marked, and the raw mode of the terminal.
use crate::terminal::{END_PROMPT_REPEATS, START_PROMPT_REPEATS, end_prompt_bytes, end_prompt_spec,
    start_prompt_bytes, start_prompt_spec};
use crate::text::{chars_of, extend_chars, lowercase_result, string_of, to_lowercase};
use vstd::prelude::*;

verus! {

// ---------------------------------------------------------------------------
// Raw mode of the terminal.
// ---------------------------------------------------------------------------

/// Remembers whether the terminal was in raw mode before the recording
/// started. The guard puts the terminal in raw mode when it was not, and
/// only then takes it out of raw mode again when it is dropped.
pub struct RawGuard {
    was_enabled: bool,
}

impl RawGuard {
    /// Whether the terminal was in raw mode when the guard was made.
    pub closed spec fn was_enabled(&self) -> bool {
        self.was_enabled
    }

    /// A guard for a terminal whose raw mode was `raw_mode_enabled`.
    pub fn new(raw_mode_enabled: bool) -> (g: RawGuard)
        ensures
            g.was_enabled() == raw_mode_enabled,
    {
        RawGuard { was_enabled: raw_mode_enabled }
    }

    /// Whether raw mode has to be switched on when the guard is made.
    pub fn enables_raw_mode(&self) -> (b: bool)
        ensures
            b == !self.was_enabled(),
    {
        !self.was_enabled
    }

    /// Whether raw mode has to be switched off when the guard is dropped.
    pub fn disables_on_drop(&self) -> (b: bool)
        ensures
            b == !self.was_enabled(),
    {
        !self.was_enabled
    }
}

// ---------------------------------------------------------------------------
// Shell type.
// ---------------------------------------------------------------------------

/// The shells a session can be recorded in.
#[derive(Clone, Copy, Debug, PartialEq, Eq, Structural)]
pub enum ShellType {
    PowerShell,
    Cmd,
    Bash,
    Sh,
    Zsh,
}

/// Why the shell could not be told.
#[derive(Debug)]
pub enum ShellTypeError {
    /// The executable is not one of the supported shells; holds its
    /// lowercased name.
    Unsupported(String),
    /// The executable path has no file name (or it is not valid UTF-8).
    NoShellParent,
}

/// What `std::path::Path::file_stem` gives for a path, on a platform whose
/// main path separator is `separator` (`\\` on Windows, `/` elsewhere,
/// which decides the path rules `std::path` follows): the final component
/// without the extension.
pub uninterp spec fn file_stem_result(separator: char, path: Seq<char>) -> Option<Seq<char>>;

/// The view of an optional string.
pub open spec fn opt_view(o: Option<String>) -> Option<Seq<char>> {
    match o {
        Some(s) => Some(s@),
        None => None,
    }
}

/// Calls `std::path::Path::file_stem` on the path, and hands back the
/// platform's main separator `std::path::MAIN_SEPARATOR` with the stem;
/// named by `file_stem_result`. The separator is `/` or `\\` (the
/// documentation of `MAIN_SEPARATOR`).
#[verifier::external_body]
fn file_stem(path: &str) -> (r: (char, Option<String>))
    ensures
        r.0 == '/' || r.0 == '\\',
        opt_view(r.1) == file_stem_result(r.0, path@),
{
    let stem = std::path::Path::new(path).file_stem().and_then(|s| s.to_str()).map(|s| s.to_string());
    (std::path::MAIN_SEPARATOR, stem)
}

/// The shell named by a lowercased executable name.
pub open spec fn shell_of_name(name: Seq<char>) -> Option<ShellType> {
    if name == "pwsh"@ || name == "powershell"@ {
        Some(ShellType::PowerShell)
    } else if name == "cmd"@ {
        Some(ShellType::Cmd)
    } else if name == "bash"@ {
        Some(ShellType::Bash)
    } else if name == "sh"@ {
        Some(ShellType::Sh)
    } else if name == "zsh"@ {
        Some(ShellType::Zsh)
    } else {
        None
    }
}

/// Whether two strings hold the same text.
fn str_eq(a: &str, b: &str) -> (r: bool)
    ensures
        r == (a@ == b@),
{
    crate::text::chars_eq(&chars_of(a), &chars_of(b))
}

/// The shell told by an executable's file stem, lowercased; an error
/// without a stem or for a stem that names no supported shell.
pub open spec fn shell_of_stem(stem: Option<Seq<char>>, r: Result<ShellType, ShellTypeError>) -> bool {
    match stem {
        None => r matches Err(ShellTypeError::NoShellParent),
        Some(stem) => match shell_of_name(lowercase_result(stem)) {
            Some(t) => r == Ok::<ShellType, ShellTypeError>(t),
            None => r matches Err(ShellTypeError::Unsupported(n)) && n@ == lowercase_result(stem),
        },
    }
}

impl ShellType {
    /// The shell whose executable has the file stem `stem` (`None` for a path
    /// without one), told by the stem lowercased.
    pub fn from_file_stem(stem: Option<String>) -> (r: Result<ShellType, ShellTypeError>)
        ensures
            shell_of_stem(opt_view(stem), r),
    {
        let stem = match stem {
            Some(s) => s,
            None => return Err(ShellTypeError::NoShellParent),
        };
        let name = to_lowercase(stem.as_str());
        let n = name.as_str();
        if str_eq(n, "pwsh") || str_eq(n, "powershell") {
            Ok(ShellType::PowerShell)
        } else if str_eq(n, "cmd") {
            Ok(ShellType::Cmd)
        } else if str_eq(n, "bash") {
            Ok(ShellType::Bash)
        } else if str_eq(n, "sh") {
            Ok(ShellType::Sh)
        } else if str_eq(n, "zsh") {
            Ok(ShellType::Zsh)
        } else {
            Err(ShellTypeError::Unsupported(name))
        }
    }

    /// The shell whose executable is at `exe_path`, told by the executable's
    /// lowercased file stem as the running platform's path rules give it.
    pub fn from_exe_path(exe_path: &str) -> (r: Result<ShellType, ShellTypeError>)
        ensures
            exists|separator: char|
                (separator == '/' || separator == '\\') && shell_of_stem(
                    file_stem_result(separator, exe_path@),
                    r,
                ),
    {
        let (separator, stem) = file_stem(exe_path);
        let r = ShellType::from_file_stem(stem);
        assert(shell_of_stem(file_stem_result(separator, exe_path@), r));
        r
    }
}

// ---------------------------------------------------------------------------
// Text helpers for the set-up commands.
// ---------------------------------------------------------------------------

/// `s` repeated `n` times.
pub open spec fn repeat(s: Seq<char>, n: nat) -> Seq<char>
    decreases n,
{
    if n == 0 {
        Seq::empty()
    } else {
        repeat(s, (n - 1) as nat) + s
    }
}

/// Appends `s` to `out` `n` times.
fn push_repeated(out: &mut Vec<char>, s: &str, n: usize)
    ensures
        final(out)@ == old(out)@ + repeat(s@, n as nat),
{
    let piece = chars_of(s);
    let mut i: usize = 0;
    while i < n
        invariant
            i <= n,
            piece@ == s@,
            out@ == old(out)@ + repeat(s@, i as nat),
        decreases n - i,
    {
        extend_chars(out, &piece);
        proof {
            assert(repeat(s@, (i + 1) as nat) == repeat(s@, i as nat) + s@);
        }
        i = i + 1;
    }
}

/// Appends the characters of `s` to `out`.
fn push_str(out: &mut Vec<char>, s: &str)
    ensures
        final(out)@ == old(out)@ + s@,
{
    extend_chars(out, &chars_of(s));
}

/// The lowercase hexadecimal digit for `d < 16`.
pub open spec fn hex_digit(d: nat) -> char {
    if d < 10 {
        crate::fields::digit_char(d)
    } else if d == 10 {
        'a'
    } else if d == 11 {
        'b'
    } else if d == 12 {
        'c'
    } else if d == 13 {
        'd'
    } else if d == 14 {
        'e'
    } else {
        'f'
    }
}

fn hex_digit_exec(d: u8) -> (c: char)
    requires
        d < 16,
    ensures
        c == hex_digit(d as nat),
{
    if d == 0 { '0' }
    else if d == 1 { '1' }
    else if d == 2 { '2' }
    else if d == 3 { '3' }
    else if d == 4 { '4' }
    else if d == 5 { '5' }
    else if d == 6 { '6' }
    else if d == 7 { '7' }
    else if d == 8 { '8' }
    else if d == 9 { '9' }
    else if d == 10 { 'a' }
    else if d == 11 { 'b' }
    else if d == 12 { 'c' }
    else if d == 13 { 'd' }
    else if d == 14 { 'e' }
    else { 'f' }
}

/// What `std::ascii::escape_default` writes for a byte: `\t`, `\r`, `\n`,
/// `\\`, `\'` and `\"` for those bytes, printable ASCII as it is, and
/// `\xNN` in lowercase hexadecimal for the others.
pub open spec fn escape_byte(b: u8) -> Seq<char> {
    if b == 0x09 {
        seq!['\\', 't']
    } else if b == 0x0d {
        seq!['\\', 'r']
    } else if b == 0x0a {
        seq!['\\', 'n']
    } else if b == 0x5c {
        seq!['\\', '\\']
    } else if b == 0x27 {
        seq!['\\', '\'']
    } else if b == 0x22 {
        seq!['\\', '"']
    } else if 0x20 <= b && b <= 0x7e {
        seq![b as char]
    } else {
        seq!['\\', 'x', hex_digit((b / 16) as nat), hex_digit((b % 16) as nat)]
    }
}

/// The escapes of the bytes, one after the other.
pub open spec fn escape_bytes_spec(bytes: Seq<u8>) -> Seq<char>
    decreases bytes.len(),
{
    if bytes.len() == 0 {
        Seq::empty()
    } else {
        escape_bytes_spec(bytes.drop_last()) + escape_byte(bytes.last())
    }
}

/// Escaped bytes are printable ASCII: whatever the bytes, their escape can
/// stand inside a quoted shell argument without control characters.
pub proof fn law_escapes_are_printable_ascii(bytes: Seq<u8>)
    ensures
        forall|i: int|
            0 <= i < escape_bytes_spec(bytes).len() ==> ' ' <= #[trigger] escape_bytes_spec(bytes)[i]
                <= '~',
    decreases bytes.len(),
{
    if bytes.len() > 0 {
        law_escapes_are_printable_ascii(bytes.drop_last());
        let prev = escape_bytes_spec(bytes.drop_last());
        let last = escape_byte(bytes.last());
        assert forall|i: int| 0 <= i < last.len() implies ' ' <= #[trigger] last[i] <= '~' by {
            let b = bytes.last();
            if !(b == 0x09 || b == 0x0d || b == 0x0a || b == 0x5c || b == 0x27 || b == 0x22 || (0x20
                <= b && b <= 0x7e)) {
                assert(b / 16 < 16);
                assert(b % 16 < 16);
            }
        }
        assert forall|i: int|
            0 <= i < escape_bytes_spec(bytes).len() implies ' ' <= #[trigger] escape_bytes_spec(
            bytes,
        )[i] <= '~' by {
            assert(escape_bytes_spec(bytes) == prev + last);
            if i >= prev.len() {
                assert(escape_bytes_spec(bytes)[i] == last[i - prev.len()]);
            } else {
                assert(escape_bytes_spec(bytes)[i] == prev[i]);
            }
        }
    }
}

/// Appends the escape of one byte.
fn push_escaped(out: &mut Vec<char>, b: u8)
    ensures
        final(out)@ == old(out)@ + escape_byte(b),
{
    let ghost before = out@;
    if b == 0x09 {
        out.push('\\');
        out.push('t');
    } else if b == 0x0d {
        out.push('\\');
        out.push('r');
    } else if b == 0x0a {
        out.push('\\');
        out.push('n');
    } else if b == 0x5c {
        out.push('\\');
        out.push('\\');
    } else if b == 0x27 {
        out.push('\\');
        out.push('\'');
    } else if b == 0x22 {
        out.push('\\');
        out.push('"');
    } else if 0x20 <= b && b <= 0x7e {
        out.push(b as char);
    } else {
        out.push('\\');
        out.push('x');
        out.push(hex_digit_exec(b / 16));
        out.push(hex_digit_exec(b % 16));
    }
    assert(out@ =~= before + escape_byte(b));
}

/// The bytes escaped as `std::ascii::escape_default` does, one after the
/// other.
pub fn escape_bytes(bytes: &[u8]) -> (r: Vec<char>)
    ensures
        r@ == escape_bytes_spec(bytes@),
{
    let mut out: Vec<char> = Vec::new();
    let mut i: usize = 0;
    while i < bytes.len()
        invariant
            i <= bytes@.len(),
            out@ == escape_bytes_spec(bytes@.subrange(0, i as int)),
        decreases bytes@.len() - i,
    {
        push_escaped(&mut out, bytes[i]);
        proof {
            let sub = bytes@.subrange(0, i + 1);
            assert(sub.drop_last() =~= bytes@.subrange(0, i as int));
            assert(sub.last() == bytes@[i as int]);
        }
        i = i + 1;
    }
    assert(bytes@.subrange(0, bytes@.len() as int) =~= bytes@);
    out
}

// ---------------------------------------------------------------------------
// Launching and setting up the shell.
// ---------------------------------------------------------------------------

/// The environment variable that tells a shell it runs inside a recorded
/// session.
pub open spec fn nested_session_var() -> Seq<char> {
    "__FP_SHELL_SESSION"@
}

/// The command that makes a POSIX shell print the markers around its prompt,
/// and removes itself from the shell's history.
pub open spec fn unix_setup_spec() -> Seq<char> {
    "export PS1=\"$(printf '"@ + escape_bytes_spec(start_prompt_spec()) + "')${PS1}$(printf '"@
        + escape_bytes_spec(end_prompt_spec()) + "')\";history -d $(history 1)\n"@
}

/// The commands that make `cmd.exe` print the markers around its prompt.
pub open spec fn cmd_setup_spec() -> Seq<char> {
    "SET __BP__=\u{200b}\r\nSET __EP__=\u{200c}\r\nprompt "@ + repeat("%__BP__%"@, 3) + "$p$g"@
        + repeat("%__EP__%"@, 2) + "\r\n"@
}

/// The command PowerShell is started with: it wraps the prompt function so
/// that the markers are printed around the prompt.
pub open spec fn powershell_setup_spec() -> Seq<char> {
    "$function:prompt = & {\n                    $__last_prompt = $function:prompt;\n                    $BP = [char]::ConvertFromUtf32(0x200b);\n                    $EP = [char]::ConvertFromUtf32(0x200c);\n                    {\n                        Write-Host \""@
        + repeat("$BP"@, 3)
        + "\" -NoNewline\n                        return \"$(&$script:__last_prompt)"@
        + repeat("$EP"@, 2) + "\"\n                    }.GetNewClosure()\n                }"@
}

/// What has to be done once the shell runs.
pub enum ShellSetup {
    /// Write this text to the shell's input.
    WriteToShell(String),
    /// Clear the screen and move the cursor to the top left corner.
    ClearScreen,
}

/// Starts a shell of a known type for recording into a notebook.
pub struct ShellLauncher {
    shell_type: ShellType,
    path: String,
    notebook_id: String,
}

impl ShellLauncher {
    pub closed spec fn shell_type(&self) -> ShellType {
        self.shell_type
    }

    pub closed spec fn path(&self) -> Seq<char> {
        self.path@
    }

    pub closed spec fn notebook_id(&self) -> Seq<char> {
        self.notebook_id@
    }

    /// A launcher for the shell of type `shell_type` whose executable is at
    /// `path`, recording into the notebook `notebook_id`.
    pub fn new(notebook_id: String, shell_type: ShellType, path: String) -> (l: Self)
        ensures
            l.shell_type() == shell_type,
            l.path() == path@,
            l.notebook_id() == notebook_id@,
    {
        ShellLauncher { shell_type, path, notebook_id }
    }

    /// A launcher for the shell whose executable is at `path`, recording
    /// into the notebook `notebook_id`: the shell is told by the
    /// executable's lowercased file stem, and an executable that is no
    /// supported shell (or a path without file name) is an error.
    pub fn from_exe_path(notebook_id: String, path: String) -> (r: Result<Self, ShellTypeError>)
        ensures
            exists|separator: char|
                (separator == '/' || separator == '\\') && shell_of_stem(
                    file_stem_result(separator, path@),
                    match r {
                        Ok(l) => Ok::<ShellType, ShellTypeError>(l.shell_type()),
                        Err(e) => Err::<ShellType, ShellTypeError>(e),
                    },
                ),
            r matches Ok(l) ==> l.path() == path@ && l.notebook_id() == notebook_id@,
    {
        let (separator, stem) = file_stem(path.as_str());
        match ShellType::from_file_stem(stem) {
            Ok(t) => Ok(ShellLauncher::new(notebook_id, t, path)),
            Err(e) => {
                assert(shell_of_stem(file_stem_result(separator, path@), Err::<ShellType, ShellTypeError>(e)));
                Err(e)
            },
        }
    }

    /// The executable to start.
    pub fn program(&self) -> (p: String)
        ensures
            p@ == self.path(),
    {
        self.path.clone()
    }

    /// The environment the shell is started with: the notebook's id, and the
    /// marker of a recorded session.
    pub fn command_env(&self) -> (env: Vec<(String, String)>)
        ensures
            env@.len() == 2,
            env@[0].0@ == "NOTEBOOK_ID"@,
            env@[0].1@ == self.notebook_id(),
            env@[1].0@ == nested_session_var(),
            env@[1].1@ == "1"@,
    {
        let mut env: Vec<(String, String)> = Vec::new();
        env.push((String::from_str("NOTEBOOK_ID"), self.notebook_id.clone()));
        env.push((String::from_str("__FP_SHELL_SESSION"), String::from_str("1")));
        env
    }

    /// The arguments the shell is started with: PowerShell is told to run
    /// the prompt set-up and stay interactive; other shells get none.
    pub fn command_args(&self) -> (args: Vec<String>)
        ensures
            self.shell_type() == ShellType::PowerShell ==> args@.len() == 3 && args@[0]@
                == "-NoExit"@ && args@[1]@ == "-Command"@ && args@[2]@ == powershell_setup_spec(),
            self.shell_type() != ShellType::PowerShell ==> args@.len() == 0,
    {
        let mut args: Vec<String> = Vec::new();
        if self.shell_type == ShellType::PowerShell {
            args.push(String::from_str("-NoExit"));
            args.push(String::from_str("-Command"));
            args.push(powershell_setup());
        }
        args
    }

    /// What to do once the shell runs so that its prompt gets marked.
    pub fn initialize_shell(&self) -> (s: ShellSetup)
        ensures
            match self.shell_type() {
                ShellType::Bash | ShellType::Sh | ShellType::Zsh => s matches ShellSetup::WriteToShell(
                    t,
                ) && t@ == unix_setup_spec(),
                ShellType::PowerShell => s matches ShellSetup::ClearScreen,
                ShellType::Cmd => s matches ShellSetup::WriteToShell(t) && t@ == cmd_setup_spec(),
            },
    {
        match self.shell_type {
            ShellType::Bash | ShellType::Sh | ShellType::Zsh => ShellSetup::WriteToShell(
                unix_setup(),
            ),
            ShellType::PowerShell => ShellSetup::ClearScreen,
            ShellType::Cmd => ShellSetup::WriteToShell(cmd_setup()),
        }
    }
}

/// The set-up command for POSIX shells.
fn unix_setup() -> (r: String)
    ensures
        r@ == unix_setup_spec(),
{
    let mut out: Vec<char> = Vec::new();
    push_str(&mut out, "export PS1=\"$(printf '");
    let start = start_prompt_bytes();
    extend_chars(&mut out, &escape_bytes(&start));
    push_str(&mut out, "')${PS1}$(printf '");
    let end = end_prompt_bytes();
    extend_chars(&mut out, &escape_bytes(&end));
    push_str(&mut out, "')\";history -d $(history 1)\n");
    string_of(&out)
}

/// The set-up commands for `cmd.exe`.
fn cmd_setup() -> (r: String)
    ensures
        r@ == cmd_setup_spec(),
{
    let mut out: Vec<char> = Vec::new();
    push_str(&mut out, "SET __BP__=\u{200b}\r\nSET __EP__=\u{200c}\r\nprompt ");
    push_repeated(&mut out, "%__BP__%", START_PROMPT_REPEATS);
    push_str(&mut out, "$p$g");
    push_repeated(&mut out, "%__EP__%", END_PROMPT_REPEATS);
    push_str(&mut out, "\r\n");
    string_of(&out)
}

/// The set-up command PowerShell is started with.
fn powershell_setup() -> (r: String)
    ensures
        r@ == powershell_setup_spec(),
{
    let mut out: Vec<char> = Vec::new();
    push_str(
        &mut out,
        "$function:prompt = & {\n                    $__last_prompt = $function:prompt;\n                    $BP = [char]::ConvertFromUtf32(0x200b);\n                    $EP = [char]::ConvertFromUtf32(0x200c);\n                    {\n                        Write-Host \"",
    );
    push_repeated(&mut out, "$BP", START_PROMPT_REPEATS);
    push_str(&mut out, "\" -NoNewline\n                        return \"$(&$script:__last_prompt)");
    push_repeated(&mut out, "$EP", END_PROMPT_REPEATS);
    push_str(&mut out, "\"\n                    }.GetNewClosure()\n                }");
    string_of(&out)
}

// ---------------------------------------------------------------------------
// The recording loop.
// ---------------------------------------------------------------------------

/// Whether the shell has shown its first prompt. Until it has, its output
/// (the echo of the set-up commands) is not recorded.
pub struct ShellSession {
    initialized: bool,
}

impl ShellSession {
    pub closed spec fn initialized(&self) -> bool {
        self.initialized
    }

    /// A session whose shell has not shown a prompt yet.
    pub fn new() -> (s: Self)
        ensures
            !s.initialized(),
    {
        ShellSession { initialized: false }
    }

    /// Whether an output of the prompt extractor is recorded; the first
    /// prompt start ends the set-up, and everything from it on is
    /// recorded.
    pub fn accepts(&mut self, is_prompt_start: bool) -> (b: bool)
        ensures
            final(self).initialized() == (old(self).initialized() || is_prompt_start),
            b == final(self).initialized(),
    {
        if !self.initialized && is_prompt_start {
            self.initialized = true;
        }
        self.initialized
    }
}

// ---------------------------------------------------------------------------
// The heading of a recorded session.
// ---------------------------------------------------------------------------

/// The heading of a recorded session: who recorded it, and when it
/// started.
pub open spec fn heading_spec(user_name: Seq<char>, timestamp: Seq<char>) -> Seq<char> {
    seq!['@'] + user_name + "'s shell session\n\u{1f7e2} Started at:\t"@ + timestamp
}

/// The heading cell's text and where in it (in characters) the timestamp
/// starts, for its timestamp annotation.
pub struct SessionHeading {
    pub content: String,
    pub timestamp_offset: usize,
}

/// The heading of a session recorded by `user_name`, started at
/// `timestamp`.
pub fn session_heading(user_name: &str, timestamp: &str) -> (h: SessionHeading)
    ensures
        h.content@ == heading_spec(user_name@, timestamp@),
        h.timestamp_offset == heading_spec(user_name@, timestamp@).len() - timestamp@.len(),
{
    let mut out: Vec<char> = Vec::new();
    out.push('@');
    push_str(&mut out, user_name);
    push_str(&mut out, "'s shell session\n\u{1f7e2} Started at:\t");
    let offset = out.len();
    push_str(&mut out, timestamp);
    proof {
        assert(out@ =~= heading_spec(user_name@, timestamp@));
    }
    SessionHeading { content: string_of(&out), timestamp_offset: offset }
}

/// The text appended to the heading when the session ends at `timestamp`.
pub open spec fn closing_spec(timestamp: Seq<char>) -> Seq<char> {
    "\n\u{1f534} Ended at: \t"@ + timestamp
}

/// The text appended to the heading when the session ends at `timestamp`.
pub fn session_closing(timestamp: &str) -> (r: String)
    ensures
        r@ == closing_spec(timestamp@),
{
    let mut out = chars_of("\n\u{1f534} Ended at: \t");
    push_str(&mut out, timestamp);
    string_of(&out)
}

} // verus!
