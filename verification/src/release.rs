//! Finding a newer release, and what this copy may do about it.
//!
//! A check reads two plain files. `latest` holds one line, the version, and
//! `SHA256SUMS` holds a digest and a filename per line, in `sha256sum`'s own
//! format. The manifest is what vouches for a file existing: an artefact's
//! address is only ever built around a name it gave, never invented from a
//! naming convention.
//!
//! Checking a download against `SHA256SUMS` proves the bytes that arrived are
//! the bytes the manifest names. It does not prove the manifest is genuine: it
//! is unsigned, and HTTPS to a known host is the whole of the trust.
//!
//! The network, the file system and the running program's own path stay with
//! the caller. What is decided about what they hand back is decided here.

use std::io::Read;

use sha2::Digest;
use vstd::prelude::*;
use vstd::string::StringSliceAdditionalSpecFns;
use crate::tar::{entry_from, entry_in_tar};
use crate::text::{
    chars_of, char_from_ascii, contains, contains_chars, ends_with, ends_with_chars, fields,
    fields_of, is_hex, lower, lowered, split, split_chars, starts_with, starts_with_chars,
    lower_all, string_of, strip_all_leading, strip_leading_chars, to_lower, trim, trim_bounds, trim_chars,
    views,
};
use crate::version::{is_newer, opt_view, parts, parts_of, version_order, Order};

verus! {

/// The project on GitLab, url encoded, and its mirror on GitHub.
pub const GITLAB_PROJECT: &'static str = "alterion-software%2Falterion-open-project";

pub const GITHUB_REPO: &'static str = "Alterion-Software/Alterion-Open-Project";

/// The generic package the GitLab half of a release uploads its bytes into.
pub const GITLAB_PACKAGE: &'static str = "alterion-open-project";

/// The registry slot the two descriptor files live in: a literal string where
/// a version goes, which is what makes the address permanent.
pub const FIXED_SLOT: &'static str = "latest";

/// The one line file naming the newest version.
pub const LATEST_NAME: &'static str = "latest";

/// The manifest, in `sha256sum` format.
pub const SUMS_NAME: &'static str = "SHA256SUMS";

/// What the executable is called inside a release tarball.
pub const BINARY_NAME: &'static str = "alterion-open-project";

/// How long after a start up before anything is asked.
pub const STARTUP_DELAY_SECONDS: u64 = 4;

/// How long a request may take before it is given up on.
pub const REQUEST_TIMEOUT_SECONDS: u64 = 15;

/// How much of a download to accept.
pub const MAX_ARTEFACT: u64 = 201326592;

/// A manifest is a few lines, and one that is not is not a manifest.
pub const MAX_MANIFEST: u64 = 262144;

/// `latest` holds a version and a newline. Anything beyond this is something
/// else wearing its name, such as a captive portal's login page.
pub const MAX_LATEST: u64 = 1024;

// ------------------------------------------------------------ addresses

pub open spec fn gitlab_slot_text(version: Seq<char>, name: Seq<char>) -> Seq<char> {
    "https://gitlab.com/api/v4/projects/"@ + GITLAB_PROJECT@ + "/packages/generic/"@
        + GITLAB_PACKAGE@ + "/"@ + version + "/"@ + name
}

pub open spec fn github_download_text(version: Seq<char>, name: Seq<char>) -> Seq<char> {
    "https://github.com/"@ + GITHUB_REPO@ + "/releases/download/v"@ + version + "/"@ + name
}

pub open spec fn github_latest_text(name: Seq<char>) -> Seq<char> {
    "https://github.com/"@ + GITHUB_REPO@ + "/releases/latest/download/"@ + name
}

pub open spec fn release_page_text(version: Seq<char>) -> Seq<char> {
    "https://gitlab.com/alterion-software/alterion-open-project/-/releases/v"@ + version
}

fn from(s: &str) -> (r: String)
    ensures
        r@ == s@,
{
    s.to_owned()
}

/// One file in GitLab's generic package registry, under the slot named
/// `version`.
pub fn gitlab_slot(version: &str, name: &str) -> (r: String)
    ensures
        r@ == gitlab_slot_text(version@, name@),
{
    let mut r = from("https://gitlab.com/api/v4/projects/");
    r.append(GITLAB_PROJECT);
    r.append("/packages/generic/");
    r.append(GITLAB_PACKAGE);
    r.append("/");
    r.append(version);
    r.append("/");
    r.append(name);
    r
}

/// One file attached to a GitHub release.
pub fn github_download(version: &str, name: &str) -> (r: String)
    ensures
        r@ == github_download_text(version@, name@),
{
    let mut r = from("https://github.com/");
    r.append(GITHUB_REPO);
    r.append("/releases/download/v");
    r.append(version);
    r.append("/");
    r.append(name);
    r
}

/// Where a descriptor file is asked for, in order: the fixed GitLab slot
/// first, because it is the origin and answers whatever the newest release
/// is, pre-release or not; GitHub's `/releases/latest/` only behind it.
pub fn descriptor_urls(name: &str) -> (r: [String; 2])
    ensures
        r[0]@ == gitlab_slot_text(FIXED_SLOT@, name@),
        r[1]@ == github_latest_text(name@),
{
    let mut second = from("https://github.com/");
    second.append(GITHUB_REPO);
    second.append("/releases/latest/download/");
    second.append(name);
    [gitlab_slot(FIXED_SLOT, name), second]
}

/// Where an artefact is fetched from, in order: the origin, then the mirror.
pub fn artefact_urls(version: &str, name: &str) -> (r: [String; 2])
    ensures
        r[0]@ == gitlab_slot_text(version@, name@),
        r[1]@ == github_download_text(version@, name@),
{
    [gitlab_slot(version, name), github_download(version, name)]
}

/// Where a person would go to fetch a release by hand.
pub fn release_page(version: &str) -> (r: String)
    ensures
        r@ == release_page_text(version@),
{
    let mut r = from("https://gitlab.com/alterion-software/alterion-open-project/-/releases/v");
    r.append(version);
    r
}

/// The host part of an address: the third piece between slashes, or the
/// whole address when it has fewer.
pub open spec fn host_text(url: Seq<char>) -> Seq<char> {
    let pieces = split(url, '/');
    if pieces.len() > 2 {
        pieces[2]
    } else {
        url
    }
}

/// The host part of an address, for saying which one failed.
pub fn host_of(url: &str) -> (r: String)
    ensures
        r@ == host_text(url@),
{
    let pieces = split_chars(&chars_of(url), '/');
    if pieces.len() > 2 {
        proof {
            assert(views(pieces@)[2] == pieces@[2]@);
        }
        string_of(&pieces[2])
    } else {
        from(url)
    }
}

// ------------------------------------------------------------ the latest file

/// The first of some lines with anything in it, trimmed.
pub open spec fn first_filled(lines: Seq<Seq<char>>) -> Option<Seq<char>>
    decreases lines.len(),
{
    if lines.len() == 0 {
        None
    } else if trim(lines[0]).len() > 0 {
        Some(trim(lines[0]))
    } else {
        first_filled(lines.skip(1))
    }
}

/// The version `latest` names: the first line that says something, trimmed,
/// without any leading `v`, and only when that is a version at all.
///
/// Lines are what lies between newlines. A carriage return before a newline
/// is white space and is trimmed with the rest, and an empty last line says
/// nothing, so this is exactly what reading `str::lines` gives.
pub open spec fn latest_version(body: Seq<char>) -> Option<Seq<char>> {
    match first_filled(split(body, '\n')) {
        Some(line) => {
            let version = strip_all_leading(line, 'v');
            if parts(version) is Some {
                Some(version)
            } else {
                None
            }
        },
        None => None,
    }
}

/// The version `latest` names.
///
/// Anything that is not a version reads as nothing rather than as a version:
/// an error page fetched from the wrong address must not become an update
/// offer.
pub fn read_latest(body: &str) -> (r: Option<String>)
    ensures
        opt_view(r) == latest_version(body@),
{
    let lines = split_chars(&chars_of(body), '\n');
    let ghost all = views(lines@);
    let mut i: usize = 0;
    proof {
        assert(all.skip(0) =~= all);
    }
    while i < lines.len()
        invariant
            i <= lines.len(),
            all == views(lines@),
            all == split(body@, '\n'),
            first_filled(all) == first_filled(all.skip(i as int)),
        decreases lines.len() - i,
    {
        let line = trim_chars(&lines[i]);
        proof {
            assert(all.skip(i as int)[0] == lines@[i as int]@);
            assert(all.skip(i as int).len() > 0);
        }
        if line.len() > 0 {
            let version = string_of(&strip_leading_chars(&line, 'v'));
            return match parts_of(version.as_str()) {
                Some(_) => Some(version),
                None => None,
            };
        }
        proof {
            assert(all.skip(i as int).skip(1) =~= all.skip(i + 1));
        }
        i += 1;
    }
    None
}

// ------------------------------------------------------------ the manifest

/// Whether a field is a SHA-256 digest written out: sixty four hexadecimal
/// digits.
pub open spec fn is_digest(field: Seq<char>) -> bool {
    field.len() == 64 && forall|i: int| 0 <= i < 64 ==> is_hex(#[trigger] field[i])
}

/// What one line of the manifest says about the file ending in `tail`: its
/// name, without the asterisk binary mode puts before it, and its digest in
/// lower case; or nothing when the line is about another file or its first
/// field is not a digest.
pub open spec fn digest_line(line: Seq<char>, tail: Seq<char>) -> Option<(Seq<char>, Seq<char>)> {
    let f = fields(line);
    if f.len() < 2 {
        None
    } else {
        let name = strip_all_leading(f[1], '*');
        if !ends_with(name, tail) {
            None
        } else if is_digest(f[0]) {
            Some((name, lowered(f[0])))
        } else {
            None
        }
    }
}

/// The first line that says something about the file ending in `tail`.
pub open spec fn first_digest_line(lines: Seq<Seq<char>>, tail: Seq<char>) -> Option<
    (Seq<char>, Seq<char>),
>
    decreases lines.len(),
{
    if lines.len() == 0 {
        None
    } else {
        match digest_line(lines[0], tail) {
            Some(found) => Some(found),
            None => first_digest_line(lines.skip(1), tail),
        }
    }
}

/// This platform's line in a manifest, read the way `line_for` reads it.
pub open spec fn manifest_line(sums: Seq<char>, tail: Seq<char>) -> Option<(Seq<char>, Seq<char>)> {
    first_digest_line(split(sums, '\n'), tail)
}

pub open spec fn pair_view(p: Option<(String, String)>) -> Option<(Seq<char>, Seq<char>)> {
    match p {
        Some((a, b)) => Some((a@, b@)),
        None => None,
    }
}

fn digest_field(field: &Vec<char>) -> (r: bool)
    ensures
        r == is_digest(field@),
{
    if field.len() != 64 {
        return false;
    }
    let mut i: usize = 0;
    while i < 64
        invariant
            field.len() == 64,
            i <= 64,
            forall|k: int| 0 <= k < i ==> is_hex(#[trigger] field@[k]),
        decreases 64 - i,
    {
        let c = field[i];
        if !(('0' <= c && c <= '9') || ('a' <= c && c <= 'f') || ('A' <= c && c <= 'F')) {
            return false;
        }
        i += 1;
    }
    true
}

fn digest_line_of(line: &Vec<char>, tail: &Vec<char>) -> (r: Option<(String, String)>)
    ensures
        pair_view(r) == digest_line(line@, tail@),
{
    let f = fields_of(line);
    if f.len() < 2 {
        return None;
    }
    proof {
        assert(views(f@)[0] == f@[0]@);
        assert(views(f@)[1] == f@[1]@);
    }
    let name = strip_leading_chars(&f[1], '*');
    if !ends_with_chars(&name, tail) {
        return None;
    }
    if !digest_field(&f[0]) {
        return None;
    }
    Some((string_of(&name), string_of(&lower_all(&f[0]))))
}

/// Find this platform's line in the manifest.
///
/// Matched by the end of the filename, because the version sits in the middle
/// of it. The format is `sha256sum`'s own: the digest, white space, then the
/// name, which in binary mode is preceded by an asterisk. A line whose first
/// field is not a digest is not a digest line, whatever else it looks like.
pub fn line_for(sums: &str, tail: &str) -> (r: Option<(String, String)>)
    ensures
        pair_view(r) == manifest_line(sums@, tail@),
{
    let lines = split_chars(&chars_of(sums), '\n');
    let wanted = chars_of(tail);
    let ghost all = views(lines@);
    let mut i: usize = 0;
    proof {
        assert(all.skip(0) =~= all);
    }
    while i < lines.len()
        invariant
            i <= lines.len(),
            all == views(lines@),
            all == split(sums@, '\n'),
            wanted@ == tail@,
            first_digest_line(all, tail@) == first_digest_line(all.skip(i as int), tail@),
        decreases lines.len() - i,
    {
        proof {
            assert(all.skip(i as int)[0] == lines@[i as int]@);
            assert(all.skip(i as int).len() > 0);
        }
        let found = digest_line_of(&lines[i], &wanted);
        if found.is_some() {
            return found;
        }
        proof {
            assert(all.skip(i as int).skip(1) =~= all.skip(i + 1));
        }
        i += 1;
    }
    None
}

// ------------------------------------------------------------ checking a download

/// What SHA-256 makes of some bytes.
pub uninterp spec fn sha256_of(bytes: Seq<u8>) -> Seq<u8>;

/// `sha2::Sha256::digest`, whose output is always thirty two bytes.
#[verifier::external_body]
fn sha256(bytes: &[u8]) -> (d: Vec<u8>)
    ensures
        d@ == sha256_of(bytes@),
        d@.len() == 32,
{
    sha2::Sha256::digest(bytes).to_vec()
}

/// The lower case hexadecimal digit for a value below sixteen.
pub open spec fn hex_digit(n: u8) -> char {
    if n < 10 {
        ((48 + n) as u32) as char
    } else {
        ((87 + n) as u32) as char
    }
}

/// Bytes written out two lower case hexadecimal digits apiece, which is what
/// formatting each with `{:02x}` gives.
pub open spec fn hex_text(bytes: Seq<u8>) -> Seq<char>
    decreases bytes.len(),
{
    if bytes.len() == 0 {
        Seq::empty()
    } else {
        hex_text(bytes.drop_last()) + seq![hex_digit(bytes.last() / 16), hex_digit(bytes.last() % 16)]
    }
}

proof fn lemma_hex_len(bytes: Seq<u8>)
    ensures
        hex_text(bytes).len() == 2 * bytes.len(),
    decreases bytes.len(),
{
    if bytes.len() > 0 {
        lemma_hex_len(bytes.drop_last());
    }
}

fn hex_char(n: u8) -> (c: char)
    requires
        n < 16,
    ensures
        c == hex_digit(n),
{
    if n < 10 {
        char_from_ascii((48 + n) as u32)
    } else {
        char_from_ascii((87 + n) as u32)
    }
}

fn hex_of(bytes: &Vec<u8>) -> (r: Vec<char>)
    ensures
        r@ == hex_text(bytes@),
{
    let mut r: Vec<char> = Vec::new();
    let mut i: usize = 0;
    while i < bytes.len()
        invariant
            i <= bytes.len(),
            r@ == hex_text(bytes@.take(i as int)),
        decreases bytes.len() - i,
    {
        let b = bytes[i];
        r.push(hex_char(b / 16));
        r.push(hex_char(b % 16));
        i += 1;
        proof {
            assert(bytes@.take(i as int).drop_last() =~= bytes@.take(i - 1));
            assert(r@ =~= hex_text(bytes@.take(i as int)));
        }
    }
    proof {
        assert(bytes@.take(bytes.len() as int) =~= bytes@);
    }
    r
}

/// The length in bytes of the trimmed text that a mismatch reports, which is
/// at most twelve.
pub open spec fn shown_len(want: Seq<char>) -> int {
    let bytes = vstd::utf8::encode_utf8(trim(want));
    if bytes.len() < 12 {
        bytes.len() as int
    } else {
        12
    }
}

/// What a mismatch says: the start of what was expected and the start of what
/// arrived.
pub open spec fn mismatch_text(expected: Seq<char>, got: Seq<char>) -> Seq<char> {
    "The download does not match the checksum published for it, so it has not been installed. Expected "@
        + expected + ", got "@ + got + "."@
}

/// Check a download against the digest published for it.
///
/// The digest is compared whatever case it was written in and whatever white
/// space surrounds it. A mismatch quotes the first twelve bytes of each, and
/// cutting the expected one there has to fall between two characters.
pub fn verify(bytes: &[u8], want: &str) -> (r: Result<(), String>)
    requires
        vstd::utf8::encode_utf8(trim(want@)).len() <= usize::MAX,
        vstd::utf8::is_char_boundary(vstd::utf8::encode_utf8(trim(want@)), shown_len(want@)),
    ensures
        r is Ok <==> lowered(trim(want@)) == hex_text(sha256_of(bytes@)),
        r matches Err(e) ==> e@ == mismatch_text(
            vstd::utf8::decode_utf8(
                vstd::utf8::encode_utf8(trim(want@)).subrange(0, shown_len(want@)),
            ),
            hex_text(sha256_of(bytes@)).subrange(0, 12),
        ),
{
    let digest = sha256(bytes);
    let got = hex_of(&digest);
    proof {
        lemma_hex_len(digest@);
    }
    let wanted = chars_of(want);
    let (a, b) = trim_bounds(&wanted);
    let trimmed = want.substring_char(a, b);
    let expected = lower_all(&chars_of(trimmed));
    let same = expected.len() == got.len() && {
        let mut i: usize = 0;
        let mut all = true;
        while i < got.len()
            invariant
                expected.len() == got.len(),
                i <= got.len(),
                all == forall|k: int| 0 <= k < i ==> expected@[k] == got@[k],
            decreases got.len() - i,
        {
            if expected[i] != got[i] {
                all = false;
            }
            i += 1;
        }
        all
    };
    proof {
        if same {
            assert(expected@ =~= got@);
        }
    }
    if same {
        return Ok(());
    }
    let k: usize = if trimmed.len() < 12 {
        trimmed.len()
    } else {
        12
    };
    proof {
        assert(trimmed@ == trim(want@));
        assert(trimmed.spec_bytes() == vstd::utf8::encode_utf8(trim(want@)));
        assert(k == shown_len(want@));
    }
    let (head, _) = trimmed.split_at(k);
    proof {
        vstd::utf8::encode_utf8_decode_utf8(head@);
    }
    let mut message = from(
        "The download does not match the checksum published for it, so it has not been installed. Expected ",
    );
    message.append(head);
    message.append(", got ");
    let shown = string_of(&crate::text::slice_chars(&got, 0, 12));
    message.append(shown.as_str());
    message.append(".");
    proof {
        assert(got@.subrange(0, 12) == hex_text(sha256_of(bytes@)).subrange(0, 12));
    }
    Err(message)
}

// ------------------------------------------------------------ the archive

/// What undoing the gzip wrapper around some bytes gives, or nothing when they
/// are not a gzip stream that decodes.
pub uninterp spec fn gunzipped(bytes: Seq<u8>) -> Option<Seq<u8>>;

/// `flate2::read::GzDecoder` read to its end: the decompressed bytes, or
/// nothing when the stream is not one it can read.
#[verifier::external_body]
fn gunzip(bytes: &[u8]) -> (r: Option<Vec<u8>>)
    ensures
        match r {
            Some(v) => gunzipped(bytes@) == Some(v@),
            None => gunzipped(bytes@) is None,
        },
{
    let mut out = Vec::new();
    match flate2::read::GzDecoder::new(bytes).read_to_end(&mut out) {
        Ok(_) => Some(out),
        Err(_) => None,
    }
}

pub open spec fn unreadable_archive_text() -> Seq<char> {
    "The download is not a readable archive."@
}

/// Undo the gzip wrapper around a tarball.
pub fn decompress(bytes: &[u8]) -> (r: Result<Vec<u8>, String>)
    ensures
        match r {
            Ok(v) => gunzipped(bytes@) == Some(v@),
            Err(e) => gunzipped(bytes@) is None && e@ == unreadable_archive_text(),
        },
{
    match gunzip(bytes) {
        Some(out) => Ok(out),
        None => Err(from("The download is not a readable archive.")),
    }
}

// ------------------------------------------------------------ how it got here

/// How this copy was installed, which decides whether it may replace itself.
#[derive(Debug, Clone, Copy, PartialEq, Eq)]
pub enum Install {
    /// A package manager owns these files and is the only thing that should
    /// write them.
    Packaged {
        name: &'static str,
        /// What to run instead.
        command: &'static str,
    },
    /// Under a system prefix: not this account's files to rewrite even where
    /// no package database mentions them.
    SystemWide,
    /// Inside a macOS application bundle, whose disk image is the unit.
    Bundle,
    /// Ours to replace: a user local install, a plain extracted binary, or a
    /// build run out of its own target directory.
    SelfManaged,
    /// The running program's path could not be read. Nothing gets replaced on
    /// a guess.
    Unknown,
}

/// The system the program was built for, which decides what artefact it
/// installs from.
#[derive(Debug, Clone, Copy, PartialEq, Eq)]
pub enum Platform {
    Linux,
    Windows,
    MacOs,
    Other,
}

/// What is done with the artefact this platform downloads.
#[derive(Debug, Clone, Copy, PartialEq, Eq)]
pub enum Kind {
    /// A tarball with the binary inside, swapped into place.
    Tarball,
    /// An installer, which is run rather than copied.
    Installer,
    /// A disk image, which a person mounts and drags across.
    Image,
}

impl Kind {
    /// Whether this application can put such an artefact in place itself.
    pub fn installable(self) -> (r: bool)
        ensures
            r == (self is Tarball || self is Installer),
    {
        match self {
            Kind::Tarball | Kind::Installer => true,
            Kind::Image => false,
        }
    }
}

pub open spec fn asset_spec(platform: Platform) -> Option<(Seq<char>, Kind)> {
    match platform {
        Platform::Linux => Some(("-x86_64-linux.tar.gz"@, Kind::Tarball)),
        Platform::Windows => Some(("-setup.exe"@, Kind::Installer)),
        Platform::MacOs => Some((".dmg"@, Kind::Image)),
        Platform::Other => None,
    }
}

/// How a platform's artefact is recognised in the manifest, by the end of its
/// name, and what becomes of it.
pub fn wanted_asset(platform: Platform) -> (r: Option<(&'static str, Kind)>)
    ensures
        match r {
            Some((tail, kind)) => asset_spec(platform) == Some((tail@, kind)),
            None => asset_spec(platform) is None,
        },
{
    match platform {
        Platform::Linux => Some(("-x86_64-linux.tar.gz", Kind::Tarball)),
        Platform::Windows => Some(("-setup.exe", Kind::Installer)),
        Platform::MacOs => Some((".dmg", Kind::Image)),
        Platform::Other => None,
    }
}

pub open spec fn self_updating(install: Install, platform: Platform) -> bool {
    install is SelfManaged && match asset_spec(platform) {
        Some((_, kind)) => kind is Tarball || kind is Installer,
        None => false,
    }
}

pub open spec fn advice_text(install: Install) -> Seq<char> {
    match install {
        Install::Packaged { name, command } => "This copy was installed by "@ + name@
            + ", which owns its files. Update it the way it was installed: "@ + command@
            + ". Replacing those files from here would be undone by the next system upgrade, or would make that upgrade fail on a conflict."@,
        Install::SystemWide => "This copy is installed for everyone on this machine, so its files are not this account's to rewrite. Update it by running install.sh again, or through whatever package installed it."@,
        Install::Bundle => "This copy is a macOS application bundle. Download the new disk image and drag it across, which keeps the bundle and its signature intact."@,
        Install::Unknown => "Where this copy is installed could not be worked out, so nothing here will overwrite it. Update it the way you installed it."@,
        Install::SelfManaged => "Download the new release and put it where this one is."@,
    }
}

impl Install {
    /// Whether this copy may replace its own files, and has a kind of artefact
    /// it could replace them with.
    pub fn self_updates(self, platform: Platform) -> (r: bool)
        ensures
            r == self_updating(self, platform),
    {
        match self {
            Install::SelfManaged => match wanted_asset(platform) {
                Some((_, kind)) => kind.installable(),
                None => false,
            },
            _ => false,
        }
    }

    /// How to get the new version, for the copies that must not fetch it
    /// themselves. Phrased as the thing to do, not as a refusal.
    pub fn advice(self) -> (r: String)
        ensures
            r@ == advice_text(self),
    {
        match self {
            Install::Packaged { name, command } => {
                let mut r = from("This copy was installed by ");
                r.append(name);
                r.append(", which owns its files. Update it the way it was installed: ");
                r.append(command);
                r.append(
                    ". Replacing those files from here would be undone by the next system upgrade, or would make that upgrade fail on a conflict.",
                );
                r
            },
            Install::SystemWide => from(
                "This copy is installed for everyone on this machine, so its files are not this account's to rewrite. Update it by running install.sh again, or through whatever package installed it.",
            ),
            Install::Bundle => from(
                "This copy is a macOS application bundle. Download the new disk image and drag it across, which keeps the bundle and its signature intact.",
            ),
            Install::Unknown => from(
                "Where this copy is installed could not be worked out, so nothing here will overwrite it. Update it the way you installed it.",
            ),
            Install::SelfManaged => from("Download the new release and put it where this one is."),
        }
    }
}

/// Where the running program's file sits, as far as its path can say.
#[derive(Debug, Clone, Copy, PartialEq, Eq)]
pub enum Placement {
    /// Inside a macOS application bundle.
    Bundle,
    /// Under a prefix that belongs to the system rather than to one user, so
    /// a package manager may own it.
    System,
    /// Anywhere else.
    User,
}

/// Prefixes that belong to the system rather than to one user: `/usr/local`
/// is under `/usr`, and Flatpak mounts the application's own tree at `/app`.
pub open spec fn system_prefixes() -> Seq<Seq<char>> {
    seq!["/usr/"@, "/opt/"@, "/bin/"@, "/sbin/"@, "/snap/"@, "/nix/store/"@, "/app/"@]
}

/// A path with its backslashes turned into slashes.
pub open spec fn forward_slashes(path: Seq<char>) -> Seq<char> {
    path.map_values(|c: char| if c == '\\' { '/' } else { c })
}

pub open spec fn under_system_prefix(path: Seq<char>) -> bool {
    exists|i: int| 0 <= i < 7 && starts_with(path, #[trigger] system_prefixes()[i])
}

pub open spec fn placement_spec(path: Seq<char>) -> Placement {
    let p = forward_slashes(path);
    if contains(p, ".app/Contents/MacOS/"@) {
        Placement::Bundle
    } else if !under_system_prefix(p) {
        Placement::User
    } else {
        Placement::System
    }
}

fn prefix_list() -> (r: Vec<Vec<char>>)
    ensures
        views(r@) == system_prefixes(),
{
    let r = vec![
        chars_of("/usr/"),
        chars_of("/opt/"),
        chars_of("/bin/"),
        chars_of("/sbin/"),
        chars_of("/snap/"),
        chars_of("/nix/store/"),
        chars_of("/app/"),
    ];
    proof {
        assert(views(r@) =~= system_prefixes());
    }
    r
}

/// Whether a path lies under one of the system's own prefixes.
pub fn is_system_path(path: &str) -> (r: bool)
    ensures
        r == under_system_prefix(path@),
{
    let p = chars_of(path);
    let prefixes = prefix_list();
    proof {
        assert(views(prefixes@).len() == prefixes@.len());
        assert(system_prefixes().len() == 7);
    }
    let mut i: usize = 0;
    while i < prefixes.len()
        invariant
            p@ == path@,
            views(prefixes@) == system_prefixes(),
            prefixes.len() == 7,
            i <= 7,
            forall|k: int| 0 <= k < i ==> !starts_with(path@, #[trigger] system_prefixes()[k]),
        decreases 7 - i,
    {
        proof {
            assert(views(prefixes@)[i as int] == prefixes@[i as int]@);
        }
        if starts_with_chars(&p, &prefixes[i]) {
            return true;
        }
        i += 1;
    }
    false
}

/// Where a program at this path sits: in a bundle, under a system prefix, or
/// somewhere that is the user's own.
pub fn placement_of(path: &str) -> (r: Placement)
    ensures
        r == placement_spec(path@),
{
    let raw = chars_of(path);
    let mut p: Vec<char> = Vec::new();
    let mut i: usize = 0;
    while i < raw.len()
        invariant
            i <= raw.len(),
            p@ == forward_slashes(raw@.take(i as int)),
        decreases raw.len() - i,
    {
        let c = raw[i];
        p.push(if c == '\\' { '/' } else { c });
        i += 1;
        proof {
            assert(p@ =~= forward_slashes(raw@.take(i as int)));
        }
    }
    proof {
        assert(raw@.take(raw.len() as int) =~= raw@);
    }
    if contains_chars(&p, &chars_of(".app/Contents/MacOS/")) {
        return Placement::Bundle;
    }
    let text = string_of(&p);
    if !is_system_path(text.as_str()) {
        Placement::User
    } else {
        Placement::System
    }
}

/// How a copy was installed, given where it sits and what a package manager
/// said about it when one was asked. Only a system path is worth asking
/// about; the answer for one nobody claims is that it is the system's.
pub fn install_for(placement: Placement, packaged: Option<Install>) -> (r: Install)
    ensures
        r == (match placement {
            Placement::Bundle => Install::Bundle,
            Placement::User => Install::SelfManaged,
            Placement::System => match packaged {
                Some(found) => found,
                None => Install::SystemWide,
            },
        }),
{
    match placement {
        Placement::Bundle => Install::Bundle,
        Placement::User => Install::SelfManaged,
        Placement::System => match packaged {
            Some(found) => found,
            None => Install::SystemWide,
        },
    }
}

// ------------------------------------------------------------ what is out there

/// One artefact from the manifest: what it is called, and what it has to hash
/// to, lower case hexadecimal.
#[derive(Debug, Clone, PartialEq, Eq)]
pub struct Artefact {
    pub name: String,
    pub digest: String,
}

/// A release newer than the one running, and what this copy can do about it.
#[derive(Debug, Clone, PartialEq, Eq)]
pub struct Found {
    pub version: String,
    pub install: Install,
    /// The file this platform installs from, or nothing when the release has
    /// no build for this platform yet.
    pub artefact: Option<Artefact>,
    /// Where to fetch it by hand.
    pub page: String,
}

pub open spec fn no_build_text(version: Seq<char>) -> Seq<char> {
    "Version "@ + version
        + " is out, but it has no build for this platform. Those are published separately and one may not have been attached yet."@
}

pub open spec fn why_not_text(found: Found, platform: Platform) -> Option<Seq<char>> {
    if found.artefact is None {
        Some(no_build_text(found.version@))
    } else if !self_updating(found.install, platform) {
        Some(advice_text(found.install))
    } else {
        None
    }
}

impl Found {
    /// Whether this copy can install this release itself.
    pub fn installable(&self, platform: Platform) -> (r: bool)
        ensures
            r == (self_updating(self.install, platform) && self.artefact is Some),
    {
        self.install.self_updates(platform) && self.artefact.is_some()
    }

    /// Why it cannot, when it cannot, in words meant for the person reading.
    pub fn why_not(&self, platform: Platform) -> (r: Option<String>)
        ensures
            opt_view(r) == why_not_text(*self, platform),
    {
        if self.artefact.is_none() {
            let mut r = from("Version ");
            r.append(self.version.as_str());
            r.append(
                " is out, but it has no build for this platform. Those are published separately and one may not have been attached yet.",
            );
            return Some(r);
        }
        if !self.install.self_updates(platform) {
            Some(self.install.advice())
        } else {
            None
        }
    }
}

pub open spec fn no_version_text() -> Seq<char> {
    "the version file did not hold a version"@
}

/// What the `latest` file means to a copy running `running`: the version to
/// offer, nothing when it is not newer, or why the file was no use.
///
/// The whole point of `latest` being one line: on the ordinary answer,
/// nothing further is fetched at all.
pub fn assess_latest(latest: &str, running: &str) -> (r: Result<Option<String>, String>)
    ensures
        match latest_version(latest@) {
            None => r matches Err(e) && e@ == no_version_text(),
            Some(v) => if version_order(v, running@) == Order::Greater {
                r matches Ok(Some(s)) && s@ == v
            } else {
                r matches Ok(None)
            },
        },
{
    let version = match read_latest(latest) {
        Some(version) => version,
        None => {
            return Err(from("the version file did not hold a version"));
        },
    };
    if !is_newer(version.as_str(), running) {
        return Ok(None);
    }
    Ok(Some(version))
}

pub open spec fn artefact_view(a: Option<Artefact>) -> Option<(Seq<char>, Seq<char>)> {
    match a {
        Some(x) => Some((x.name@, x.digest@)),
        None => None,
    }
}

/// A newer release, put together from its version, the manifest in its own
/// slot, and how this copy was installed.
pub fn found_from(version: String, sums: &str, install: Install, platform: Platform) -> (r: Found)
    ensures
        r.version@ == version@,
        r.install == install,
        r.page@ == release_page_text(version@),
        artefact_view(r.artefact) == (match asset_spec(platform) {
            Some((tail, _)) => manifest_line(sums@, tail),
            None => None,
        }),
{
    let artefact = match wanted_asset(platform) {
        Some((tail, _)) => match line_for(sums, tail) {
            Some((name, digest)) => Some(Artefact { name, digest }),
            None => None,
        },
        None => None,
    };
    let page = release_page(version.as_str());
    Found { version, install, artefact, page }
}

/// What a checked artefact becomes in this copy's hands.
#[derive(Debug, Clone, PartialEq, Eq)]
pub enum Unpacked {
    /// The new binary, taken out of its tarball, to be swapped into place.
    Binary(Vec<u8>),
    /// An installer, checked, to be kept and run as a separate step.
    Installer(Vec<u8>),
}

/// What an install came back with.
#[derive(Debug, Clone, PartialEq, Eq)]
pub enum Installed {
    /// The binary has been replaced, and the previous one kept at this path in
    /// case the new one turns out not to start.
    Replaced { kept: String },
    /// The installer has been downloaded and checked. Running it is a separate
    /// and deliberate step, since it closes this application.
    Downloaded { installer: String },
}

pub open spec fn nothing_to_install_text(version: Seq<char>) -> Seq<char> {
    "Version "@ + version + " has no build for this platform, so there is nothing to install."@
}

pub open spec fn no_artefact_text() -> Seq<char> {
    "There is no artefact for this platform to install from."@
}

/// What has to be downloaded to install a release, from where, and what it
/// will be; or why there is nothing to install.
pub fn install_plan(found: &Found, platform: Platform) -> (r: Result<([String; 2], Kind), String>)
    ensures
        match r {
            Ok((urls, kind)) => found.artefact matches Some(a) && asset_spec(platform) matches Some(
                (_, k),
            ) && kind == k && urls[0]@ == gitlab_slot_text(found.version@, a.name@) && urls[1]@
                == github_download_text(found.version@, a.name@),
            Err(e) => if found.artefact is None {
                e@ == nothing_to_install_text(found.version@)
            } else {
                asset_spec(platform) is None && e@ == no_artefact_text()
            },
        },
{
    let artefact = match &found.artefact {
        Some(artefact) => artefact,
        None => {
            let mut e = from("Version ");
            e.append(found.version.as_str());
            e.append(" has no build for this platform, so there is nothing to install.");
            return Err(e);
        },
    };
    let kind = match wanted_asset(platform) {
        Some((_, kind)) => kind,
        None => {
            return Err(from("There is no artefact for this platform to install from."));
        },
    };
    Ok((artefact_urls(found.version.as_str(), artefact.name.as_str()), kind))
}

pub open spec fn missing_binary_text(name: Seq<char>) -> Seq<char> {
    name + " does not contain "@ + BINARY_NAME@ + ", so there is nothing to install."@
}

pub open spec fn image_text() -> Seq<char> {
    "A disk image is mounted and dragged across by hand, so this one has not been downloaded."@
}

/// What the downloaded bytes of an artefact become: checked against the
/// digest the manifest published, then the binary out of a tarball or the
/// installer as it is. A disk image is never something this installs.
pub fn unpack(artefact: &Artefact, kind: Kind, bytes: &[u8]) -> (r: Result<Unpacked, String>)
    requires
        vstd::utf8::encode_utf8(trim(artefact.digest@)).len() <= usize::MAX,
        vstd::utf8::is_char_boundary(
            vstd::utf8::encode_utf8(trim(artefact.digest@)),
            shown_len(artefact.digest@),
        ),
    ensures
        lowered(trim(artefact.digest@)) != hex_text(sha256_of(bytes@)) ==> r is Err,
        r matches Ok(Unpacked::Binary(b)) ==> kind is Tarball && lowered(trim(artefact.digest@))
            == hex_text(sha256_of(bytes@)) && (gunzipped(bytes@) matches Some(tarball)
            && entry_from(tarball, 0, BINARY_NAME@) == Some(b@)),
        r matches Ok(Unpacked::Installer(b)) ==> kind is Installer && lowered(
            trim(artefact.digest@),
        ) == hex_text(sha256_of(bytes@)) && b@ == bytes@,
        lowered(trim(artefact.digest@)) == hex_text(sha256_of(bytes@)) ==> match kind {
            Kind::Tarball => match gunzipped(bytes@) {
                None => r matches Err(e) && e@ == unreadable_archive_text(),
                Some(tarball) => match entry_from(tarball, 0, BINARY_NAME@) {
                    Some(b) => r matches Ok(Unpacked::Binary(x)) && x@ == b,
                    None => r matches Err(e) && e@ == missing_binary_text(artefact.name@),
                },
            },
            Kind::Installer => r matches Ok(Unpacked::Installer(x)) && x@ == bytes@,
            Kind::Image => r matches Err(e) && e@ == image_text(),
        },
{
    match verify(bytes, artefact.digest.as_str()) {
        Ok(()) => {},
        Err(e) => {
            return Err(e);
        },
    }
    match kind {
        Kind::Tarball => {
            let tarball = match decompress(bytes) {
                Ok(tarball) => tarball,
                Err(e) => {
                    return Err(e);
                },
            };
            match entry_in_tar(tarball.as_slice(), BINARY_NAME) {
                Some(binary) => Ok(Unpacked::Binary(binary)),
                None => {
                    let mut e = artefact.name.clone();
                    e.append(" does not contain ");
                    e.append(BINARY_NAME);
                    e.append(", so there is nothing to install.");
                    Err(e)
                },
            }
        },
        Kind::Installer => Ok(Unpacked::Installer(vstd::slice::slice_to_vec(bytes))),
        Kind::Image => Err(
            from(
                "A disk image is mounted and dragged across by hand, so this one has not been downloaded.",
            ),
        ),
    }
}

/// Every failure on the way to an answer, carried rather than just the last
/// one: `, and ` between them.
pub open spec fn joined(trouble: Seq<Seq<char>>) -> Seq<char>
    decreases trouble.len(),
{
    if trouble.len() == 0 {
        Seq::empty()
    } else if trouble.len() == 1 {
        trouble[0]
    } else {
        joined(trouble.drop_last()) + ", and "@ + trouble.last()
    }
}

pub open spec fn string_views(v: Seq<String>) -> Seq<Seq<char>> {
    Seq::new(v.len(), |i: int| v[i]@)
}

/// The failures of every address that was asked, in the order they were
/// asked, as one sentence.
pub fn join_trouble(trouble: &Vec<String>) -> (r: String)
    ensures
        r@ == joined(string_views(trouble@)),
{
    let mut r = String::new();
    let mut i: usize = 0;
    while i < trouble.len()
        invariant
            i <= trouble.len(),
            r@ == joined(string_views(trouble@).take(i as int)),
        decreases trouble.len() - i,
    {
        let ghost before = string_views(trouble@).take(i as int);
        if i > 0 {
            r.append(", and ");
        }
        r.append(trouble[i].as_str());
        i += 1;
        proof {
            let now = string_views(trouble@).take(i as int);
            assert(now.drop_last() =~= before);
            if i == 1 {
                assert(before =~= Seq::<Seq<char>>::empty());
            }
        }
    }
    proof {
        assert(string_views(trouble@).take(trouble.len() as int) =~= string_views(trouble@));
    }
    r
}

pub open spec fn download_failed_text(trouble: Seq<Seq<char>>) -> Seq<char> {
    "The download did not succeed: "@ + joined(trouble) + "."@
}

/// What to say when no address gave the artefact up.
pub fn download_failed(trouble: &Vec<String>) -> (r: String)
    ensures
        r@ == download_failed_text(string_views(trouble@)),
{
    let mut r = from("The download did not succeed: ");
    let all = join_trouble(trouble);
    r.append(all.as_str());
    r.append(".");
    r
}


proof fn lemma_digest_lines_end_in_the_tail(lines: Seq<Seq<char>>, tail: Seq<char>)
    ensures
        first_digest_line(lines, tail) matches Some((name, digest)) ==> ends_with(name, tail)
            && digest.len() == 64,
    decreases lines.len(),
{
    if lines.len() > 0 && digest_line(lines[0], tail) is None {
        lemma_digest_lines_end_in_the_tail(lines.skip(1), tail);
    }
}

proof fn lemma_ends_with_its_tail(head: Seq<char>, tail: Seq<char>)
    ensures
        ends_with(head + tail, tail),
{
    assert((head + tail).subrange(head.len() as int, (head + tail).len() as int) =~= tail);
}

/// An artefact's addresses are only ever built round a name the manifest
/// gave: the name ends the way this platform's artefacts are named, its
/// digest is sixty four digits, and both addresses end in the name.
pub proof fn artefact_addresses_end_in_the_manifests_name(
    version: Seq<char>,
    sums: Seq<char>,
    tail: Seq<char>,
    name: Seq<char>,
    digest: Seq<char>,
)
    requires
        manifest_line(sums, tail) == Some((name, digest)),
    ensures
        ends_with(name, tail),
        digest.len() == 64,
        ends_with(gitlab_slot_text(version, name), name),
        ends_with(github_download_text(version, name), name),
{
    lemma_digest_lines_end_in_the_tail(split(sums, '\n'), tail);
    lemma_ends_with_its_tail(
        "https://gitlab.com/api/v4/projects/"@ + GITLAB_PROJECT@ + "/packages/generic/"@
            + GITLAB_PACKAGE@ + "/"@ + version + "/"@,
        name,
    );
    lemma_ends_with_its_tail(
        "https://github.com/"@ + GITHUB_REPO@ + "/releases/download/v"@ + version + "/"@,
        name,
    );
}

proof fn lemma_starts_with_its_head(head: Seq<char>, rest: Seq<char>)
    ensures
        starts_with(head + rest, head),
{
    assert((head + rest).subrange(0, head.len() as int) =~= head);
}

/// Every address asked for is an encrypted one: HTTPS to a known host is the
/// whole of the trust behind an unsigned manifest.
pub proof fn every_address_is_an_encrypted_one(version: Seq<char>, name: Seq<char>)
    ensures
        starts_with(gitlab_slot_text(version, name), "https://"@),
        starts_with(github_download_text(version, name), "https://"@),
        starts_with(github_latest_text(name), "https://"@),
        starts_with(release_page_text(version), "https://"@),
{
    reveal_strlit("https://");
    reveal_strlit("https://gitlab.com/api/v4/projects/");
    reveal_strlit("https://github.com/");
    reveal_strlit("https://gitlab.com/alterion-software/alterion-open-project/-/releases/v");
    let https = "https://"@;
    let gl = "https://gitlab.com/api/v4/projects/"@;
    assert(gl =~= https + gl.subrange(8, gl.len() as int));
    lemma_starts_with_its_head(
        https,
        gl.subrange(8, gl.len() as int) + GITLAB_PROJECT@ + "/packages/generic/"@ + GITLAB_PACKAGE@
            + "/"@ + version + "/"@ + name,
    );
    assert(gitlab_slot_text(version, name) =~= https + (gl.subrange(8, gl.len() as int)
        + GITLAB_PROJECT@ + "/packages/generic/"@ + GITLAB_PACKAGE@ + "/"@ + version + "/"@ + name));
    let gh = "https://github.com/"@;
    assert(gh =~= https + gh.subrange(8, gh.len() as int));
    lemma_starts_with_its_head(
        https,
        gh.subrange(8, gh.len() as int) + GITHUB_REPO@ + "/releases/download/v"@ + version + "/"@
            + name,
    );
    assert(github_download_text(version, name) =~= https + (gh.subrange(8, gh.len() as int)
        + GITHUB_REPO@ + "/releases/download/v"@ + version + "/"@ + name));
    lemma_starts_with_its_head(
        https,
        gh.subrange(8, gh.len() as int) + GITHUB_REPO@ + "/releases/latest/download/"@ + name,
    );
    assert(github_latest_text(name) =~= https + (gh.subrange(8, gh.len() as int) + GITHUB_REPO@
        + "/releases/latest/download/"@ + name));
    let page = "https://gitlab.com/alterion-software/alterion-open-project/-/releases/v"@;
    assert(page =~= https + page.subrange(8, page.len() as int));
    lemma_starts_with_its_head(https, page.subrange(8, page.len() as int) + version);
    assert(release_page_text(version) =~= https + (page.subrange(8, page.len() as int) + version));
}

proof fn lemma_prefix_kept(path: Seq<char>, prefix: Seq<char>)
    requires
        starts_with(path, prefix),
        forall|k: int| 0 <= k < prefix.len() ==> prefix[k] != '\\',
    ensures
        starts_with(forward_slashes(path), prefix),
{
    assert forall|k: int| 0 <= k < prefix.len() implies forward_slashes(path).subrange(
        0,
        prefix.len() as int,
    )[k] == prefix[k] by {
        assert(path.subrange(0, prefix.len() as int)[k] == path[k]);
    }
    assert(forward_slashes(path).subrange(0, prefix.len() as int) =~= prefix);
}

/// Every path under `/usr/`, `/opt/`, `/bin/`, `/sbin/`, `/snap/`,
/// `/nix/store/` or `/app/` is the system's: it counts as a system path, and
/// unless it lies inside a macOS application bundle the program there is
/// placed as the system's, so it is never one that replaces itself.
pub proof fn the_systems_own_prefixes_are_system_paths(path: Seq<char>)
    requires
        starts_with(path, "/usr/"@) || starts_with(path, "/opt/"@) || starts_with(path, "/bin/"@)
            || starts_with(path, "/sbin/"@) || starts_with(path, "/snap/"@) || starts_with(
            path,
            "/nix/store/"@,
        ) || starts_with(path, "/app/"@),
    ensures
        under_system_prefix(path),
        !contains(forward_slashes(path), ".app/Contents/MacOS/"@) ==> placement_spec(path)
            == Placement::System,
{
    reveal_strlit("/usr/");
    reveal_strlit("/opt/");
    reveal_strlit("/bin/");
    reveal_strlit("/sbin/");
    reveal_strlit("/snap/");
    reveal_strlit("/nix/store/");
    reveal_strlit("/app/");
    let ps = system_prefixes();
    let i: int = if starts_with(path, "/usr/"@) {
        0
    } else if starts_with(path, "/opt/"@) {
        1
    } else if starts_with(path, "/bin/"@) {
        2
    } else if starts_with(path, "/sbin/"@) {
        3
    } else if starts_with(path, "/snap/"@) {
        4
    } else if starts_with(path, "/nix/store/"@) {
        5
    } else {
        6
    };
    assert(ps[0] == "/usr/"@);
    assert(ps[1] == "/opt/"@);
    assert(ps[2] == "/bin/"@);
    assert(ps[3] == "/sbin/"@);
    assert(ps[4] == "/snap/"@);
    assert(ps[5] == "/nix/store/"@);
    assert(ps[6] == "/app/"@);
    assert(starts_with(path, ps[i]));
    assert(under_system_prefix(path));
    assert forall|k: int| 0 <= k < ps[i].len() implies ps[i][k] != '\\' by {}
    lemma_prefix_kept(path, ps[i]);
    assert(under_system_prefix(forward_slashes(path)));
}

} // verus!
