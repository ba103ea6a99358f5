//! `fp update` and the background version check: what to do with the
//! published version, where the release files are, and how a downloaded
//! binary is checked against its published checksum.
use crate::text::{chars_eq, chars_of, extend_chars, lines, lines_spec, slice_chars, string_of,
    trim, trim_spec};
use vstd::prelude::*;

verus! {

/// How long a version check is remembered, in seconds (a day).
pub const VERSION_CHECK_DURATION: u64 = 86400;

/// What `fp update` does after comparing the published and running
/// versions.
#[derive(Clone, Copy, Debug, PartialEq, Eq, Structural)]
pub enum UpdatePlan {
    /// The running binary is the published one: nothing to do.
    AlreadyLatest,
    /// `--force` was given: update.
    Forced,
    /// The binary was installed with Homebrew: suggest `brew upgrade` (or
    /// `fp update --force`) and leave the binary as it is.
    HomebrewInstall,
    /// Update.
    Update,
}

/// The plan for the given versions and flags.
pub open spec fn plan_spec(same_version: bool, force: bool, homebrew: bool) -> UpdatePlan {
    if same_version {
        UpdatePlan::AlreadyLatest
    } else if force {
        UpdatePlan::Forced
    } else if homebrew {
        UpdatePlan::HomebrewInstall
    } else {
        UpdatePlan::Update
    }
}

/// Decides what `fp update` does.
pub fn plan_update(latest_version: &str, build_version: &str, force: bool, homebrew: bool) -> (r:
    UpdatePlan)
    ensures
        r == plan_spec(latest_version@ == build_version@, force, homebrew),
{
    let same = chars_eq(&chars_of(latest_version), &chars_of(build_version));
    if same {
        UpdatePlan::AlreadyLatest
    } else if force {
        UpdatePlan::Forced
    } else if homebrew {
        UpdatePlan::HomebrewInstall
    } else {
        UpdatePlan::Update
    }
}

impl UpdatePlan {
    /// Whether the new binary is downloaded and installed: only on a forced
    /// update or a plain one.
    pub fn downloads(&self) -> (b: bool)
        ensures
            b == (*self == UpdatePlan::Forced || *self == UpdatePlan::Update),
    {
        matches!(self, UpdatePlan::Forced | UpdatePlan::Update)
    }
}

/// The address of the release files of `version` for `arch`.
pub open spec fn release_dir_spec(version: Seq<char>, arch: Seq<char>) -> Seq<char> {
    "https://fp.dev/fp/v"@ + version + seq!['/'] + arch + seq!['/']
}

fn release_dir(version: &str, arch: &str) -> (r: Vec<char>)
    ensures
        r@ == release_dir_spec(version@, arch@),
{
    let mut out = chars_of("https://fp.dev/fp/v");
    extend_chars(&mut out, &chars_of(version));
    out.push('/');
    extend_chars(&mut out, &chars_of(arch));
    out.push('/');
    out
}

/// The address of the `fp` binary of `version` for `arch`.
pub fn binary_url(version: &str, arch: &str) -> (r: String)
    ensures
        r@ == release_dir_spec(version@, arch@) + seq!['f', 'p'],
{
    let mut out = release_dir(version, arch);
    out.push('f');
    out.push('p');
    string_of(&out)
}

/// The address of the checksum file of `version` for `arch`.
pub fn checksum_url(version: &str, arch: &str) -> (r: String)
    ensures
        r@ == release_dir_spec(version@, arch@) + "checksum.sha256"@,
{
    let mut out = release_dir(version, arch);
    extend_chars(&mut out, &chars_of("checksum.sha256"));
    string_of(&out)
}

/// The published version, from the text of the version file: the text
/// without surrounding whitespace.
pub fn latest_version_from(text: &str) -> (r: String)
    ensures
        r@ == trim_spec(text@),
{
    string_of(&trim(&chars_of(text)))
}

/// Two spaces in a row start at index `i` of `l`.
pub open spec fn double_space_at(l: Seq<char>, i: int) -> bool {
    0 <= i && i + 1 < l.len() && l[i] == ' ' && l[i + 1] == ' '
}

/// The index of the first two spaces in a row, if any.
#[verifier::opaque]
pub open spec fn first_double_space(l: Seq<char>) -> Option<int> {
    if exists|i: int| double_space_at(l, i) {
        Some(
            choose|i: int|
                double_space_at(l, i) && forall|j: int| 0 <= j < i ==> !double_space_at(l, j),
        )
    } else {
        None
    }
}

/// The checksum on a line of a checksum file when the line is for the file
/// `fp`: the line is split at its first two spaces into the checksum and
/// the file name.
pub open spec fn line_checksum(l: Seq<char>) -> Option<Seq<char>> {
    match first_double_space(l) {
        Some(i) => if l.subrange(i + 2, l.len() as int) == seq!['f', 'p'] {
            Some(l.subrange(0, i))
        } else {
            None
        },
        None => None,
    }
}

/// The checksum of the first line that is for `fp`.
pub open spec fn checksum_in_lines(ls: Seq<Seq<char>>) -> Option<Seq<char>>
    decreases ls.len(),
{
    if ls.len() == 0 {
        None
    } else {
        match line_checksum(ls[0]) {
            Some(h) => Some(h),
            None => checksum_in_lines(ls.drop_first()),
        }
    }
}

/// The first two spaces in a row of `l`.
fn find_double_space(l: &Vec<char>) -> (r: Option<usize>)
    ensures
        match r {
            Some(i) => i + 1 < l@.len() && first_double_space(l@) == Some(i as int),
            None => first_double_space(l@) is None,
        },
{
    reveal(first_double_space);
    let n = l.len();
    let mut i: usize = 0;
    while i < n && i + 1 < n
        invariant
            i <= n,
            n == l@.len(),
            forall|j: int| 0 <= j < i ==> !double_space_at(l@, j),
        decreases n - i,
    {
        if l[i] == ' ' && l[i + 1] == ' ' {
            proof {
                reveal(first_double_space);
                assert(double_space_at(l@, i as int));
                let k = choose|k: int|
                    double_space_at(l@, k) && forall|j: int| 0 <= j < k ==> !double_space_at(l@, j);
                assert(k == i as int) by {
                    if k < i {
                        assert(!double_space_at(l@, k));
                    }
                    if i < k {
                        assert(!double_space_at(l@, i as int));
                    }
                }
            }
            return Some(i);
        }
        i = i + 1;
    }
    proof {
        if exists|k: int| double_space_at(l@, k) {
            let k = choose|k: int| double_space_at(l@, k);
            assert(k < i);
            assert(!double_space_at(l@, k));
        }
    }
    None
}

/// The checksum on a line, if the line is for `fp`.
fn checksum_of_line(l: &Vec<char>) -> (r: Option<Vec<char>>)
    ensures
        match r {
            Some(h) => line_checksum(l@) == Some(h@),
            None => line_checksum(l@) is None,
        },
{
    match find_double_space(l) {
        Some(i) => {
            let n = l.len();
            let file = slice_chars(l, i + 2, n);
            let fp: Vec<char> = vec!['f', 'p'];
            assert(fp@ =~= seq!['f', 'p']);
            if chars_eq(&file, &fp) {
                Some(slice_chars(l, 0, i))
            } else {
                None
            }
        },
        None => None,
    }
}

/// Why no checksum was found.
#[derive(Debug, PartialEq, Eq, Structural)]
pub enum ChecksumError {
    /// No line of the checksum file is for `fp`.
    VersionNotFound,
}

/// The published checksum of the `fp` binary, from the text of a checksum
/// file (lines of a checksum, two spaces and a file name).
pub fn find_checksum(text: &str) -> (r: Result<String, ChecksumError>)
    ensures
        match checksum_in_lines(lines_spec(text@)) {
            Some(h) => r matches Ok(s) && s@ == h,
            None => r == Err::<String, ChecksumError>(ChecksumError::VersionNotFound),
        },
{
    let all = lines(&chars_of(text));
    let ghost ls = lines_spec(text@);
    assert(ls.subrange(0, ls.len() as int) =~= ls);
    let mut i: usize = 0;
    while i < all.len()
        invariant
            i <= all@.len(),
            ls == lines_spec(text@),
            ls == all@.map_values(|l: Vec<char>| l@),
            checksum_in_lines(ls) == checksum_in_lines(ls.subrange(i as int, ls.len() as int)),
        decreases all@.len() - i,
    {
        let ghost rest = ls.subrange(i as int, ls.len() as int);
        proof {
            assert(rest.len() > 0);
            assert(rest[0] == all@[i as int]@);
            assert(rest.drop_first() =~= ls.subrange(i + 1, ls.len() as int));
        }
        match checksum_of_line(&all[i]) {
            Some(h) => {
                assert(checksum_in_lines(rest) == Some(h@));
                return Ok(string_of(&h));
            },
            None => {},
        }
        i = i + 1;
    }
    proof {
        assert(ls.subrange(i as int, ls.len() as int) =~= Seq::<Seq<char>>::empty());
    }
    Err(ChecksumError::VersionNotFound)
}

/// Whether the downloaded binary's checksum is the published one.
pub fn checksum_matches(remote: &str, computed: &str) -> (b: bool)
    ensures
        b == (remote@ == computed@),
{
    chars_eq(&chars_of(remote), &chars_of(computed))
}

/// What `sha2::Sha256::digest` gives for the bytes.
pub uninterp spec fn sha256_result(bytes: Seq<u8>) -> Seq<u8>;

/// Calls `sha2::Sha256::digest`; named by `sha256_result`. The digest of
/// SHA-256 has 32 bytes.
#[verifier::external_body]
fn sha256_digest(bytes: &[u8]) -> (r: Vec<u8>)
    ensures
        r@ == sha256_result(bytes@),
        r@.len() == 32,
{
    <sha2::Sha256 as sha2::Digest>::digest(bytes).to_vec()
}

/// Two lowercase hexadecimal digits for each byte, in order.
pub open spec fn hex_spec(bytes: Seq<u8>) -> Seq<char>
    decreases bytes.len(),
{
    if bytes.len() == 0 {
        Seq::empty()
    } else {
        hex_spec(bytes.drop_last()) + seq![
            crate::shell::hex_digit((bytes.last() / 16) as nat),
            crate::shell::hex_digit((bytes.last() % 16) as nat),
        ]
    }
}

/// Calls `hex::encode`, which writes each byte as two lowercase
/// hexadecimal digits, in order.
#[verifier::external_body]
fn hex_encode(bytes: &[u8]) -> (r: String)
    ensures
        r@ == hex_spec(bytes@),
{
    hex::encode(bytes)
}

/// The checksum of a download: its SHA-256 digest in lowercase
/// hexadecimal, as the published checksum files write it.
pub open spec fn checksum_spec(bytes: Seq<u8>) -> Seq<char> {
    hex_spec(sha256_result(bytes))
}

fn checksum_of(bytes: &[u8]) -> (r: String)
    ensures
        r@ == checksum_spec(bytes@),
{
    let digest = sha256_digest(bytes);
    hex_encode(digest.as_slice())
}

/// Why a downloaded binary was refused.
#[derive(Debug, PartialEq, Eq, Structural)]
pub enum DownloadError {
    /// The SHA-256 checksum of the download is not the published one.
    ChecksumMismatch,
}

/// Checks a downloaded binary against its published checksum.
pub fn verify_download(download: &[u8], remote_checksum: &str) -> (r: Result<(), DownloadError>)
    ensures
        r is Ok <==> remote_checksum@ == checksum_spec(download@),
        r is Err ==> r == Err::<(), DownloadError>(DownloadError::ChecksumMismatch),
{
    let computed = checksum_of(download);
    if checksum_matches(remote_checksum, computed.as_str()) {
        Ok(())
    } else {
        Err(DownloadError::ChecksumMismatch)
    }
}

/// Whether the background version check is due: when the last check is
/// unknown, or was made more than a day ago. Instants are seconds since
/// the Unix epoch.
pub fn version_check_due(last_check: Option<i128>, now: i128) -> (b: bool)
    requires
        now >= i128::MIN + 86400,
    ensures
        b == match last_check {
            Some(t) => t < now - 86400,
            None => true,
        },
{
    match last_check {
        Some(t) => t < now - 86400,
        None => true,
    }
}

/// What the background version check reports: the published version when
/// it is not the running one.
pub fn newer_version(remote_version: String, build_version: &str) -> (r: Option<String>)
    ensures
        remote_version@ == build_version@ ==> r is None,
        remote_version@ != build_version@ ==> (r matches Some(v) && v@ == remote_version@),
{
    if chars_eq(&chars_of(remote_version.as_str()), &chars_of(build_version)) {
        None
    } else {
        Some(remote_version)
    }
}

// ---------------------------------------------------------------------------
// Homebrew.
// ---------------------------------------------------------------------------

/// The platform the binary runs on, as far as Homebrew is concerned.
#[derive(Clone, Copy, Debug, PartialEq, Eq, Structural)]
pub enum Platform {
    Linux,
    MacOs,
    Other,
}

/// What `std::path::Path::starts_with` gives, on a platform whose main path
/// separator is `separator` (`\\` on Windows, `/` elsewhere, which decides
/// the path rules `std::path` follows): whether `base` is a prefix of `path`
/// by whole components.
pub uninterp spec fn path_starts_with_result(separator: char, path: Seq<char>, base: Seq<char>) -> bool;

/// Calls `std::path::Path::starts_with`, and hands back the platform's main
/// separator `std::path::MAIN_SEPARATOR` with the answer; named by
/// `path_starts_with_result`. The separator is `/` or `\\` (the
/// documentation of `MAIN_SEPARATOR`).
#[verifier::external_body]
fn path_starts_with(path: &str, base: &str) -> (r: (char, bool))
    ensures
        r.0 == '/' || r.0 == '\\',
        r.1 == path_starts_with_result(r.0, path@, base@),
{
    (std::path::MAIN_SEPARATOR, std::path::Path::new(path).starts_with(base))
}

/// Whether the executable at `exe_path` looks installed by Homebrew: it
/// lies under Homebrew's default prefix of the platform. Each prefix is
/// checked by the path rules of a platform with the main separator given
/// for it (`sep_a` for the first prefix, `sep_b` for the second).
pub open spec fn homebrew_spec(
    exe_path: Option<Seq<char>>,
    platform: Platform,
    sep_a: char,
    sep_b: char,
) -> bool {
    match exe_path {
        None => false,
        Some(p) => match platform {
            Platform::Linux => path_starts_with_result(sep_a, p, "/home/linuxbrew/.linuxbrew"@),
            Platform::MacOs => path_starts_with_result(sep_a, p, "/usr/local"@)
                || path_starts_with_result(sep_b, p, "/opt/homebrew"@),
            Platform::Other => false,
        },
    }
}

/// `b` is the Homebrew check of `exe_path` by the path rules of a platform,
/// whatever main separators they have.
pub open spec fn homebrew_answer(exe_path: Option<Seq<char>>, platform: Platform, b: bool) -> bool {
    exists|sep_a: char, sep_b: char|
        #![trigger homebrew_spec(exe_path, platform, sep_a, sep_b)]
        is_main_separator(sep_a) && is_main_separator(sep_b) && b == homebrew_spec(
            exe_path,
            platform,
            sep_a,
            sep_b,
        )
}

/// A main path separator that `std::path::MAIN_SEPARATOR` can be.
pub open spec fn is_main_separator(c: char) -> bool {
    c == '/' || c == '\\'
}

/// A naive check whether `fp` was installed through Homebrew: whether the
/// executable lies under Homebrew's default location (a moved Homebrew
/// prefix gives a false negative). `exe_path` is `None` where the path of
/// the executable is unknown. The path is read by the running platform's
/// path rules (the same for both prefixes: `MAIN_SEPARATOR` is one
/// constant, which this contract does not state).
pub fn installed_through_homebrew(exe_path: Option<&str>, platform: Platform) -> (b: bool)
    ensures
        homebrew_answer(
            match exe_path {
                Some(p) => Some(p@),
                None => None,
            },
            platform,
            b,
        ),
{
    let ghost e = match exe_path {
        Some(p) => Some(p@),
        None => None,
    };
    match exe_path {
        None => {
            assert(is_main_separator('/') && homebrew_spec(e, platform, '/', '/') == false);
            false
        },
        Some(p) => match platform {
            Platform::Linux => {
                let (sep, b) = path_starts_with(p, "/home/linuxbrew/.linuxbrew");
                assert(b == homebrew_spec(e, platform, sep, sep));
                b
            },
            Platform::MacOs => {
                let (sep_a, a) = path_starts_with(p, "/usr/local");
                let (sep_b, b) = path_starts_with(p, "/opt/homebrew");
                assert((a || b) == homebrew_spec(e, platform, sep_a, sep_b));
                a || b
            },
            Platform::Other => {
                assert(is_main_separator('/') && homebrew_spec(e, platform, '/', '/') == false);
                false
            },
        },
    }
}

} // verus!
