//! The artifacts of a molecule: `GET /v1/molecules/{id}/artifacts`, its files
//! by token, and `PUT` of a file by name.

use vstd::prelude::*;
use crate::clock;
use crate::clock::{timestamp_text, Timestamp};
use crate::digest;
use crate::digest::{blake3_hex, same_bytes, sha256};
use crate::error;
use crate::error::ApiError;
use crate::order;
use crate::paths;
use crate::paths::join;
use crate::text;
use crate::text::{ascii_hex_digit, chars_of, contains_char, contains_double_dot, lowercase, same_text, same_text_ignoring_case, split_last, split_once, trim, without_surrounding};
use crate::pipeline::{check, Fact, Stage, Verb};
use crate::scopes::ScopeRule;

verus! {

/// The directory under which the artifacts lie.
pub const DEFAULT_ARTIFACT_ROOT: &'static str = "/tmp/cosmon";

/// The variable that tells a worker where to leave its artifacts.
pub const ENV_COSMON_ARTIFACT_DIR: &'static str = "COSMON_ARTIFACT_DIR";

/// The directory of a molecule's artifacts.
pub fn artifact_dir_for(root: &str, noyau: &str, molecule_id: &str) -> (r: String)
    ensures
        r@ == paths::joined(paths::joined(root@, noyau@), molecule_id@),
{
    let dir = join(root, noyau);
    join(dir.as_str(), molecule_id)
}

/// A digest by its algorithm.
#[derive(Clone, Debug, PartialEq, Eq)]
pub struct IntegrityHash {
    pub algo: String,
    pub hex: String,
}

/// A file as the manifest lists it.
#[derive(Clone, Debug, PartialEq, Eq)]
pub struct ArtifactEntry {
    pub name: String,
    pub content_type: String,
    pub size_bytes: u64,
    pub integrity: IntegrityHash,
    pub created_at: String,
    pub token: String,
}

/// The manifest of a molecule's artifacts.
#[derive(Clone, Debug)]
pub struct ArtifactManifest {
    pub request_id: String,
    pub molecule_id: String,
    pub artifacts: Vec<ArtifactEntry>,
}

// ---------------------------------------------------------------------------
// Base 32
// ---------------------------------------------------------------------------

/// The character of a number below 32: the digits, and the lower-case letters
/// without i, l, o and u.
pub open spec fn base32_char(v: int) -> char {
    "0123456789abcdefghjkmnpqrstvwxyz"@[v]
}

/// The power of two that moves five bits to the low end of a window of sixteen,
/// where they begin behind `skipped` bits.
pub open spec fn low_end(skipped: int) -> int {
    if skipped == 0 {
        2048
    } else if skipped == 1 {
        1024
    } else if skipped == 2 {
        512
    } else if skipped == 3 {
        256
    } else if skipped == 4 {
        128
    } else if skipped == 5 {
        64
    } else if skipped == 6 {
        32
    } else {
        16
    }
}

/// The five bits that begin at bit `5 * i`, the high bit of the first byte being
/// bit zero and the bits past the end being zero.
pub open spec fn five_bits(bytes: Seq<u8>, i: int) -> int {
    let start = 5 * i / 8;
    let window = digest::byte_at(bytes, start) * 256 + digest::byte_at(bytes, start + 1);
    window / low_end(5 * i % 8) % 32
}

/// The base 32 text of a byte string: one character for every five bits begun.
pub open spec fn base32_of(bytes: Seq<u8>) -> Seq<char> {
    Seq::new(((8 * bytes.len() + 4) / 5) as nat, |i: int| base32_char(five_bits(bytes, i)))
}

/// The number of a character of the alphabet.
pub open spec fn base32_value(c: char) -> int {
    "0123456789abcdefghjkmnpqrstvwxyz"@.index_of(c)
}

/// The number of the character at a place, and zero past the end.
pub open spec fn base32_value_at(s: Seq<char>, i: int) -> int {
    if 0 <= i < s.len() {
        base32_value(s[i])
    } else {
        0
    }
}

/// The power of two that moves eight bits to the low end of a window of fifteen,
/// where they begin behind `skipped` bits.
pub open spec fn byte_low_end(skipped: int) -> int {
    if skipped == 0 {
        128
    } else if skipped == 1 {
        64
    } else if skipped == 2 {
        32
    } else if skipped == 3 {
        16
    } else {
        8
    }
}

/// The eight bits that begin at bit `8 * j` of a base 32 text, five bits to a
/// character.
pub open spec fn eight_bits(s: Seq<char>, j: int) -> int {
    let start = 8 * j / 5;
    let window = base32_value_at(s, start) * 1024 + base32_value_at(s, start + 1) * 32 + base32_value_at(s, start + 2);
    window / byte_low_end(8 * j % 5) % 256
}

/// The byte string of a base 32 text: one byte for every eight bits that are
/// full. What is left over at the end is dropped.
pub open spec fn base32_bytes_of(s: Seq<char>) -> Seq<u8> {
    Seq::new((5 * s.len() / 8) as nat, |j: int| eight_bits(s, j) as u8)
}

/// How many numbers the bits of the last character that no byte fills could
/// spell, by the length of the byte string.
pub open spec fn spare(len: int) -> int {
    if len % 5 == 0 {
        1
    } else if len % 5 == 1 {
        4
    } else if len % 5 == 2 {
        16
    } else if len % 5 == 3 {
        2
    } else {
        8
    }
}

fn base32_digit(v: u32) -> (r: char)
    requires
        v < 32,
    ensures
        r == base32_char(v as int),
{
    let alphabet = chars_of("0123456789abcdefghjkmnpqrstvwxyz");
    proof {
        reveal_strlit("0123456789abcdefghjkmnpqrstvwxyz");
    }
    alphabet[v as usize]
}

fn shift_of(skipped: usize) -> (r: u32)
    requires
        skipped < 8,
    ensures
        r == low_end(skipped as int),
        r > 0,
{
    if skipped == 0 {
        2048
    } else if skipped == 1 {
        1024
    } else if skipped == 2 {
        512
    } else if skipped == 3 {
        256
    } else if skipped == 4 {
        128
    } else if skipped == 5 {
        64
    } else if skipped == 6 {
        32
    } else {
        16
    }
}

/// The base 32 text of a byte string.
pub fn base32_encode(bytes: &Vec<u8>) -> (r: String)
    ensures
        r@ == base32_of(bytes@),
{
    let mut out: String = String::new();
    // The byte and the bit within it at which the next character begins.
    let mut at: usize = 0;
    let mut skipped: usize = 0;
    let ghost mut i: int = 0;
    let count: usize = bytes.len();
    while at < count
        invariant
            count == bytes@.len(),
            skipped < 8,
            i >= 0,
            8 * at + skipped == 5 * i,
            at <= count,
            at == count ==> skipped < 5,
            out@.len() == i,
            forall|k: int| 0 <= k < i ==> #[trigger] out@[k] == base32_char(five_bits(bytes@, k)),
        decreases count - at, 8 - skipped,
    {
        let high: u32 = bytes[at] as u32;
        let low: u32 = if at + 1 < count {
            bytes[at + 1] as u32
        } else {
            0
        };
        let window: u32 = high * 256 + low;
        let shift: u32 = shift_of(skipped);
        proof {
            assert(5 * i / 8 == at);
            assert(5 * i % 8 == skipped as int);
            assert(window as int == digest::byte_at(bytes@, at as int) * 256 + digest::byte_at(bytes@, at + 1));
        }
        let v: u32 = window / shift % 32;
        proof {
            assert(v as int == five_bits(bytes@, i));
            i = i + 1;
        }
        out.push(base32_digit(v));
        if skipped < 3 {
            skipped += 5;
        } else {
            skipped -= 3;
            at += 1;
        }
    }
    proof {
        assert((8 * bytes@.len() + 4) / 5 == i);
        assert(out@ =~= base32_of(bytes@));
    }
    out
}

// ---------------------------------------------------------------------------
// Tokens
// ---------------------------------------------------------------------------

/// The bytes a token is derived from.
pub open spec fn token_input(molecule_id: Seq<char>, name: Seq<char>) -> Seq<u8> {
    digest::utf8(molecule_id) + seq![47u8] + digest::utf8(name)
}

/// The token of a file: the base 32 text of the first fifteen bytes of a digest
/// of the molecule and the name.
pub open spec fn token_of(molecule_id: Seq<char>, name: Seq<char>) -> Seq<char> {
    "art_"@ + base32_of(digest::sha256_of(token_input(molecule_id, name)).take(15))
}

fn push_bytes(out: &mut Vec<u8>, s: &str)
    ensures
        final(out)@ == old(out)@ + digest::utf8(s@),
{
    let bytes = s.as_bytes();
    let ghost start = out@;
    let mut i: usize = 0;
    while i < bytes.len()
        invariant
            i <= bytes@.len(),
            out@ == start + bytes@.take(i as int),
        decreases bytes@.len() - i,
    {
        out.push(bytes[i]);
        assert(bytes@.take(i + 1) =~= bytes@.take(i as int).push(bytes@[i as int]));
        i += 1;
    }
    assert(bytes@.take(i as int) =~= bytes@);
}

/// The token by which a file is fetched. It is the same on every listing, and it
/// keeps the name of the file out of the URL.
pub fn artifact_token(molecule_id: &str, name: &str) -> (r: String)
    ensures
        r@ == token_of(molecule_id@, name@),
        r@.len() == 28,
{
    let mut input: Vec<u8> = Vec::new();
    push_bytes(&mut input, molecule_id);
    input.push(47);
    push_bytes(&mut input, name);
    assert(input@ =~= token_input(molecule_id@, name@));
    let digest = sha256(input.as_slice());
    let mut head: Vec<u8> = Vec::new();
    let mut i: usize = 0;
    while i < 15
        invariant
            i <= 15,
            digest@.len() == 32,
            head@ == digest@.take(i as int),
        decreases 15 - i,
    {
        head.push(digest[i]);
        assert(digest@.take(i + 1) =~= digest@.take(i as int).push(digest@[i as int]));
        i += 1;
    }
    let mut out: String = "art_".to_owned();
    let tail = base32_encode(&head);
    out.push_str(tail.as_str());
    proof {
        reveal_strlit("art_");
    }
    out
}

// ---------------------------------------------------------------------------
// Content types
// ---------------------------------------------------------------------------

/// The part of a name behind its last dot, in lower case; empty without a dot.
pub open spec fn lower_extension(name: Seq<char>) -> Seq<char> {
    let lower = text::lower_text(name);
    if text::last_at(lower, '.') >= 0 {
        lower.skip(text::last_at(lower, '.') + 1)
    } else {
        Seq::empty()
    }
}

/// The media type of an extension.
pub open spec fn media_type(ext: Seq<char>) -> Seq<char> {
    if ext == "txt"@ || ext == "md"@ || ext == "log"@ {
        "text/plain"@
    } else if ext == "json"@ {
        "application/json"@
    } else if ext == "yaml"@ || ext == "yml"@ {
        "application/yaml"@
    } else if ext == "html"@ || ext == "htm"@ {
        "text/html"@
    } else if ext == "csv"@ {
        "text/csv"@
    } else if ext == "png"@ {
        "image/png"@
    } else if ext == "jpg"@ || ext == "jpeg"@ {
        "image/jpeg"@
    } else if ext == "svg"@ {
        "image/svg+xml"@
    } else if ext == "pdf"@ {
        "application/pdf"@
    } else if ext == "toml"@ {
        "application/toml"@
    } else {
        "application/octet-stream"@
    }
}

/// The media type of a file, by its extension.
pub fn detect_content_type(name: &str) -> (r: &'static str)
    ensures
        r@ == media_type(lower_extension(name@)),
{
    let lower = lowercase(name);
    proof {
        text::lemma_last_at(lower@, '.');
    }
    let ext: String = match split_last(lower.as_str(), '.') {
        Some((_, e)) => e,
        None => String::new(),
    };
    assert(ext@ =~= lower_extension(name@));
    let e = ext.as_str();
    if same_text(e, "txt") || same_text(e, "md") || same_text(e, "log") {
        "text/plain"
    } else if same_text(e, "json") {
        "application/json"
    } else if same_text(e, "yaml") || same_text(e, "yml") {
        "application/yaml"
    } else if same_text(e, "html") || same_text(e, "htm") {
        "text/html"
    } else if same_text(e, "csv") {
        "text/csv"
    } else if same_text(e, "png") {
        "image/png"
    } else if same_text(e, "jpg") || same_text(e, "jpeg") {
        "image/jpeg"
    } else if same_text(e, "svg") {
        "image/svg+xml"
    } else if same_text(e, "pdf") {
        "application/pdf"
    } else if same_text(e, "toml") {
        "application/toml"
    } else {
        "application/octet-stream"
    }
}

// ---------------------------------------------------------------------------
// Path segments and headers
// ---------------------------------------------------------------------------

/// A segment that names something inside a directory: not empty, without
/// separators and without two dots in a row.
pub open spec fn plain_segment(s: Seq<char>) -> bool {
    s.len() > 0 && !s.contains('/') && !s.contains('\\') && !text::has_double_dot(s)
}

/// Tells whether a segment names something inside a directory.
pub fn is_plain_segment(segment: &str) -> (r: bool)
    ensures
        r == plain_segment(segment@),
{
    !segment.is_empty() && !contains_char(segment, '/') && !contains_char(segment, '\\') && !contains_double_dot(segment)
}

/// Refuses a segment that could lead out of the directory.
pub fn reject_unsafe_segment(segment: &str, request_id: &str) -> (r: Result<(), ApiError>)
    ensures
        match r {
            Ok(_) => plain_segment(segment@),
            Err(e) => {
                &&& !plain_segment(segment@)
                &&& error::says(e, 400, "invalid_path_segment"@)
                &&& e.request_id is Some
                &&& (e.request_id->0)@ == request_id@
            },
        },
{
    if is_plain_segment(segment) {
        Ok(())
    } else {
        Err(ApiError::of_request(400, "invalid_path_segment", request_id))
    }
}

/// The digest that a `Digest` header declares: `blake3=` in any case, then
/// hexadecimal digits, quoted or not.
pub open spec fn declared_digest(raw: Seq<char>) -> Option<Seq<char>> {
    let s = text::trimmed(raw);
    let at = text::first_at(s, '=');
    let hex = text::trim_char(text::trimmed(s.skip(at + 1)), '"');
    if 0 <= at < s.len() && text::lower_text(s.take(at)) == text::lower_text("blake3"@) && hex.len() > 0 && (forall|
        i: int,
    |
        0 <= i < hex.len() ==> text::is_hex_digit(#[trigger] hex[i])) {
        Some(hex)
    } else {
        None
    }
}

fn only_hex(s: &str) -> (r: bool)
    ensures
        r == forall|i: int| 0 <= i < s@.len() ==> text::is_hex_digit(#[trigger] s@[i]),
{
    let cs = chars_of(s);
    let mut i: usize = 0;
    while i < cs.len()
        invariant
            i <= cs@.len(),
            cs@ == s@,
            forall|k: int| 0 <= k < i ==> text::is_hex_digit(#[trigger] s@[k]),
        decreases cs@.len() - i,
    {
        if !ascii_hex_digit(cs[i]) {
            assert(!text::is_hex_digit(s@[i as int]));
            return false;
        }
        i += 1;
    }
    true
}

/// Reads a `Digest` header.
pub fn parse_digest_header(raw: &str) -> (r: Option<String>)
    ensures
        crate::nucleon_map::optional(r) == declared_digest(raw@),
{
    let s = trim(raw);
    proof {
        text::lemma_first_at(s@, '=');
    }
    match split_once(s.as_str(), '=') {
        None => None,
        Some((algo, rest)) => {
            if !same_text_ignoring_case(algo.as_str(), "blake3") {
                return None;
            }
            let inner = trim(rest.as_str());
            let hex = without_surrounding(inner.as_str(), '"');
            if only_hex(hex.as_str()) && !hex.as_str().is_empty() {
                Some(hex)
            } else {
                None
            }
        },
    }
}

/// An upload agrees with its `Digest` header: there is none that can be read, or
/// it declares the digest of the bytes.
pub open spec fn digest_agrees(header: Option<Seq<char>>, body: Seq<u8>) -> bool {
    header matches Some(raw) ==> (declared_digest(raw) matches Some(hex) ==> hex == digest::blake3_hex_of(body))
}

/// Tells whether an upload agrees with its `Digest` header.
pub fn digest_matches(header: Option<&str>, body: &Vec<u8>) -> (r: bool)
    ensures
        r == digest_agrees(crate::routes::view_of(header), body@),
{
    match header {
        None => true,
        Some(raw) => match parse_digest_header(raw) {
            None => true,
            Some(declared) => {
                let computed = blake3_hex(body.as_slice());
                proof {
                    digest::lemma_utf8_injective(declared@, computed@);
                }
                same_bytes(declared.as_str().as_bytes(), computed.as_str().as_bytes())
            },
        },
    }
}

/// A conditional upload may go on: without `If-Match`, or where the file exists
/// and its digest is the one named, quoted or not.
pub open spec fn if_match_holds(header: Option<Seq<char>>, existing: Option<Seq<u8>>) -> bool {
    header matches Some(expected) ==> (existing matches Some(bytes) && digest::blake3_hex_of(bytes)
        == text::trim_char(text::trimmed(expected), '"'))
}

/// Tells whether a conditional upload may go on.
pub fn if_match_allows(header: Option<&str>, existing: &Option<Vec<u8>>) -> (r: bool)
    ensures
        r == if_match_holds(crate::routes::view_of(header), digest::bytes_view(*existing)),
{
    match header {
        None => true,
        Some(expected) => match existing {
            None => false,
            Some(bytes) => {
                let inner = trim(expected);
                let wanted = without_surrounding(inner.as_str(), '"');
                let actual = blake3_hex(bytes.as_slice());
                same_text(actual.as_str(), wanted.as_str())
            },
        },
    }
}

// ---------------------------------------------------------------------------
// Entries
// ---------------------------------------------------------------------------

/// The entry describes this file.
pub open spec fn describes(
    e: ArtifactEntry,
    molecule_id: Seq<char>,
    name: Seq<char>,
    content_type: Seq<char>,
    bytes: Seq<u8>,
    created_at: Seq<char>,
) -> bool {
    &&& e.name@ == name
    &&& e.content_type@ == content_type
    &&& e.size_bytes == bytes.len()
    &&& e.integrity.algo@ == "blake3"@
    &&& e.integrity.hex@ == digest::blake3_hex_of(bytes)
    &&& e.created_at@ == created_at
    &&& e.token@ == token_of(molecule_id, name)
}

fn entry(molecule_id: &str, name: &str, content_type: &str, bytes: &Vec<u8>, created_at: String) -> (r: ArtifactEntry)
    ensures
        describes(r, molecule_id@, name@, content_type@, bytes@, created_at@),
{
    ArtifactEntry {
        name: name.to_owned(),
        content_type: content_type.to_owned(),
        size_bytes: bytes.len() as u64,
        integrity: IntegrityHash { algo: "blake3".to_owned(), hex: blake3_hex(bytes.as_slice()) },
        created_at,
        token: artifact_token(molecule_id, name),
    }
}

/// The entry of a file just pushed: its media type is the one declared, else the
/// one of its name.
pub fn pushed_entry(
    molecule_id: &str,
    name: &str,
    declared_type: Option<&str>,
    body: &Vec<u8>,
    now: Timestamp,
) -> (r: ArtifactEntry)
    requires
        now.wf(),
    ensures
        describes(
            r,
            molecule_id@,
            name@,
            match declared_type {
                Some(t) => t@,
                None => media_type(lower_extension(name@)),
            },
            body@,
            clock::rfc3339_of(now.secs, now.nanos),
        ),
{
    let content_type: &str = match declared_type {
        Some(t) => t,
        None => detect_content_type(name),
    };
    entry(molecule_id, name, content_type, body, timestamp_text(now))
}

/// A regular file of the artifact directory, with its name and what it holds.
/// Where the time of its last change cannot be read, the present stands for it.
#[derive(Clone, Debug)]
pub struct ScannedFile {
    pub name: String,
    pub bytes: Vec<u8>,
    pub modified: Timestamp,
}

/// What a look at the artifact directory found.
#[derive(Clone, Debug)]
pub enum DirListing {
    Missing,
    Unreadable,
    Files(Vec<ScannedFile>),
}

/// A name that is shown: it does not begin with a dot.
pub open spec fn shown(name: Seq<char>) -> bool {
    !(name.len() > 0 && name[0] == '.')
}

fn is_shown(name: &str) -> (r: bool)
    ensures
        r == shown(name@),
{
    let cs = chars_of(name);
    !(cs.len() > 0 && cs[0] == '.')
}

/// The entry describes the file as it was found.
pub open spec fn lists_file(e: ArtifactEntry, molecule_id: Seq<char>, f: ScannedFile) -> bool {
    describes(
        e,
        molecule_id,
        f.name@,
        media_type(lower_extension(f.name@)),
        f.bytes@,
        clock::rfc3339_of(f.modified.secs, f.modified.nanos),
    )
}

/// The shown files, in the order of the listing.
pub open spec fn shown_files(files: Seq<ScannedFile>) -> Seq<ScannedFile>
    decreases files.len(),
{
    if files.len() == 0 {
        Seq::empty()
    } else if shown(files.last().name@) {
        shown_files(files.drop_last()).push(files.last())
    } else {
        shown_files(files.drop_last())
    }
}

/// `at` lists each index below its length once.
pub open spec fn rearranges(at: Seq<int>) -> bool {
    &&& forall|i: int| 0 <= i < at.len() ==> 0 <= #[trigger] at[i] < at.len()
    &&& forall|i: int, j: int| 0 <= i < j < at.len() ==> #[trigger] at[i] != #[trigger] at[j]
}

/// The manifest lists exactly the shown files, in the order of their names.
pub open spec fn manifest_of(entries: Seq<ArtifactEntry>, molecule_id: Seq<char>, files: Seq<ScannedFile>) -> bool {
    let wanted = shown_files(files);
    &&& entries.len() == wanted.len()
    &&& forall|i: int, j: int|
        0 <= i < j < entries.len() ==> order::text_le((#[trigger] entries[i]).name@, (#[trigger] entries[j]).name@)
    &&& exists|at: Seq<int>|
        {
            &&& at.len() == wanted.len()
            &&& #[trigger] rearranges(at)
            &&& forall|i: int| 0 <= i < at.len() ==> lists_file(#[trigger] entries[i], molecule_id, wanted[at[i]])
        }
}

/// The manifest of what a look at the directory found: the shown files, in the
/// order of their names. A missing directory has none.
pub fn scan_artifact_dir(listing: &DirListing, molecule_id: &str) -> (r: Result<Vec<ArtifactEntry>, &'static str>)
    requires
        listing matches DirListing::Files(files) ==> forall|i: int|
            0 <= i < files@.len() ==> (#[trigger] files@[i]).modified.wf(),
    ensures
        match *listing {
            DirListing::Missing => r is Ok && (r->Ok_0)@.len() == 0,
            DirListing::Unreadable => r is Err && (r->Err_0)@ == "artifact_dir_unreadable"@,
            DirListing::Files(files) => r is Ok && manifest_of((r->Ok_0)@, molecule_id@, files@),
        },
{
    match listing {
        DirListing::Missing => Ok(Vec::new()),
        DirListing::Unreadable => Err("artifact_dir_unreadable"),
        DirListing::Files(files) => Ok(manifest(files, molecule_id)),
    }
}

fn manifest(files: &Vec<ScannedFile>, molecule_id: &str) -> (r: Vec<ArtifactEntry>)
    requires
        forall|i: int| 0 <= i < files@.len() ==> (#[trigger] files@[i]).modified.wf(),
    ensures
        manifest_of(r@, molecule_id@, files@),
{
    let mut entries: Vec<ArtifactEntry> = Vec::new();
    let ghost mut at: Seq<int> = Seq::empty();
    let mut i: usize = 0;
    assert(files@.take(0) =~= Seq::<ScannedFile>::empty());
    while i < files.len()
        invariant
            i <= files@.len(),
            forall|i: int| 0 <= i < files@.len() ==> (#[trigger] files@[i]).modified.wf(),
            entries@.len() == at.len(),
            at.len() == shown_files(files@.take(i as int)).len(),
            rearranges(at),
            forall|k: int|
                0 <= k < at.len() ==> lists_file(
                    #[trigger] entries@[k],
                    molecule_id@,
                    shown_files(files@.take(i as int))[at[k]],
                ),
            forall|a: int, b: int|
                0 <= a < b < entries@.len() ==> order::text_le((#[trigger] entries@[a]).name@, (#[trigger] entries@[b]).name@),
        decreases files@.len() - i,
    {
        let f = &files[i];
        let ghost wanted = shown_files(files@.take(i as int));
        proof {
            assert(files@.take(i + 1).drop_last() =~= files@.take(i as int));
            assert(files@.take(i + 1).last() == files@[i as int]);
        }
        if is_shown(f.name.as_str()) {
            let e = entry(
                molecule_id,
                f.name.as_str(),
                detect_content_type(f.name.as_str()),
                &f.bytes,
                timestamp_text(f.modified),
            );
            let ghost old_entries = entries@;
            let ghost old_at = at;
            let mut slot: usize = 0;
            while slot < entries.len() && order::place(entries[slot].name.as_str(), f.name.as_str())
                == order::Placement::Before
                invariant
                    slot <= entries@.len(),
                    entries@ == old_entries,
                    forall|k: int| 0 <= k < slot ==> order::text_lt((#[trigger] entries@[k]).name@, f.name@),
                decreases entries@.len() - slot,
            {
                slot += 1;
            }
            proof {
                assert forall|k: int| slot <= k < old_entries.len() implies order::text_le(
                    f.name@,
                    (#[trigger] old_entries[k]).name@,
                ) by {
                    let first = old_entries[slot as int].name@;
                    order::lemma_text_total(first, f.name@);
                    assert(order::text_le(f.name@, first));
                    if k > slot {
                        assert(order::text_le(first, old_entries[k].name@));
                        if f.name@ != first && first != old_entries[k].name@ {
                            order::lemma_text_transitive(f.name@, first, old_entries[k].name@);
                        }
                    }
                }
            }
            entries.insert(slot, e);
            proof {
                let next = wanted.push(files@[i as int]);
                assert(shown_files(files@.take(i + 1)) == next);
                at = old_at.insert(slot as int, wanted.len() as int);
                assert(rearranges(at)) by {
                    assert forall|a: int| 0 <= a < at.len() implies 0 <= #[trigger] at[a] < at.len() by {
                        if a < slot {
                            assert(at[a] == old_at[a]);
                        } else if a > slot {
                            assert(at[a] == old_at[a - 1]);
                        }
                    }
                    assert forall|a: int, b: int| 0 <= a < b < at.len() implies #[trigger] at[a] != #[trigger] at[b] by {
                        let x = if a < slot { a } else { a - 1 };
                        let y = if b < slot { b } else { b - 1 };
                        if a != slot {
                            assert(at[a] == old_at[x]);
                        }
                        if b != slot {
                            assert(at[b] == old_at[y]);
                        }
                    }
                }
                assert forall|k: int| 0 <= k < at.len() implies lists_file(
                    #[trigger] entries@[k],
                    molecule_id@,
                    next[at[k]],
                ) by {
                    if k < slot {
                        assert(entries@[k] == old_entries[k]);
                        assert(at[k] == old_at[k]);
                    } else if k > slot {
                        assert(entries@[k] == old_entries[k - 1]);
                        assert(at[k] == old_at[k - 1]);
                    }
                }
                assert forall|a: int, b: int| 0 <= a < b < entries@.len() implies order::text_le(
                    (#[trigger] entries@[a]).name@,
                    (#[trigger] entries@[b]).name@,
                ) by {
                    let x = if a < slot { a } else { a - 1 };
                    let y = if b < slot { b } else { b - 1 };
                    if a != slot {
                        assert(entries@[a] == old_entries[x]);
                    }
                    if b != slot {
                        assert(entries@[b] == old_entries[y]);
                    }
                }
            }
        }
        i += 1;
    }
    proof {
        assert(files@.take(i as int) =~= files@);
    }
    entries
}

/// The entry at `at` is the first with the token.
pub open spec fn is_first_with(entries: Seq<ArtifactEntry>, token: Seq<char>, at: int) -> bool {
    &&& 0 <= at < entries.len()
    &&& entries[at].token@ == token
    &&& forall|k: int| 0 <= k < at ==> (#[trigger] entries[k]).token@ != token
}

/// The first entry with the token.
pub fn find_by_token(entries: &Vec<ArtifactEntry>, token: &str) -> (r: Option<usize>)
    ensures
        match r {
            Some(at) => is_first_with(entries@, token@, at as int),
            None => forall|k: int| 0 <= k < entries@.len() ==> (#[trigger] entries@[k]).token@ != token@,
        },
{
    let mut i: usize = 0;
    while i < entries.len()
        invariant
            i <= entries@.len(),
            forall|k: int| 0 <= k < i ==> (#[trigger] entries@[k]).token@ != token@,
        decreases entries@.len() - i,
    {
        if same_text(entries[i].token.as_str(), token) {
            return Some(i);
        }
        i += 1;
    }
    None
}

// ---------------------------------------------------------------------------
// The plan
// ---------------------------------------------------------------------------

pub open spec fn list_artifacts_plan() -> Seq<Stage> {
    seq![
        Stage::Bearer { metered: true },
        Stage::Token { metered: true },
        Stage::Scope { act: "list_artifacts", rule: ScopeRule::ArtifactRead },
        Stage::Admit { verb: Verb::ListArtifacts, targeted: true, metered: true },
        check(Fact::MoleculeSegmentSafe, 400, "invalid_path_segment"),
        check(Fact::DirectoryReadable, 500, "artifact_dir_unreadable"),
        Stage::Answer { status: 200 },
    ]
}

/// The plan of `GET /v1/molecules/{id}/artifacts`.
pub fn list_artifacts() -> (r: Vec<Stage>)
    ensures
        r@ == list_artifacts_plan(),
{
    vec![
        Stage::Bearer { metered: true },
        Stage::Token { metered: true },
        Stage::Scope { act: "list_artifacts", rule: ScopeRule::ArtifactRead },
        Stage::Admit { verb: Verb::ListArtifacts, targeted: true, metered: true },
        check(Fact::MoleculeSegmentSafe, 400, "invalid_path_segment"),
        check(Fact::DirectoryReadable, 500, "artifact_dir_unreadable"),
        Stage::Answer { status: 200 },
    ]
}

pub open spec fn fetch_artifact_plan() -> Seq<Stage> {
    seq![
        Stage::Bearer { metered: true },
        Stage::Token { metered: true },
        Stage::Scope { act: "fetch_artifact", rule: ScopeRule::ArtifactRead },
        Stage::Admit { verb: Verb::FetchArtifact, targeted: true, metered: true },
        check(Fact::MoleculeSegmentSafe, 400, "invalid_path_segment"),
        check(Fact::DirectoryReadable, 500, "artifact_dir_unreadable"),
        check(Fact::TokenKnown, 404, "artifact_not_found"),
        check(Fact::FileReadable, 404, "artifact_not_found"),
        Stage::Answer { status: 200 },
    ]
}

/// The plan of `GET /v1/molecules/{id}/artifacts/{token}`.
pub fn fetch_artifact() -> (r: Vec<Stage>)
    ensures
        r@ == fetch_artifact_plan(),
{
    vec![
        Stage::Bearer { metered: true },
        Stage::Token { metered: true },
        Stage::Scope { act: "fetch_artifact", rule: ScopeRule::ArtifactRead },
        Stage::Admit { verb: Verb::FetchArtifact, targeted: true, metered: true },
        check(Fact::MoleculeSegmentSafe, 400, "invalid_path_segment"),
        check(Fact::DirectoryReadable, 500, "artifact_dir_unreadable"),
        check(Fact::TokenKnown, 404, "artifact_not_found"),
        check(Fact::FileReadable, 404, "artifact_not_found"),
        Stage::Answer { status: 200 },
    ]
}

pub open spec fn push_artifact_plan() -> Seq<Stage> {
    seq![
        Stage::Bearer { metered: true },
        Stage::Token { metered: true },
        Stage::Scope { act: "push_artifact", rule: ScopeRule::ArtifactWrite },
        Stage::Admit { verb: Verb::PushArtifact, targeted: true, metered: true },
        check(Fact::MoleculeSegmentSafe, 400, "invalid_path_segment"),
        check(Fact::NameSegmentSafe, 400, "invalid_path_segment"),
        check(Fact::DirectoryMade, 503, "artifact_dir_unavailable"),
        check(Fact::DigestAgrees, 400, "digest_mismatch"),
        check(Fact::IfMatchHolds, 412, "if_match_failed"),
        check(Fact::FileWritten, 503, "artifact_write_failed"),
        Stage::Answer { status: 201 },
    ]
}

/// The plan of `PUT /v1/molecules/{id}/artifacts/{name}`.
pub fn push_artifact() -> (r: Vec<Stage>)
    ensures
        r@ == push_artifact_plan(),
{
    vec![
        Stage::Bearer { metered: true },
        Stage::Token { metered: true },
        Stage::Scope { act: "push_artifact", rule: ScopeRule::ArtifactWrite },
        Stage::Admit { verb: Verb::PushArtifact, targeted: true, metered: true },
        check(Fact::MoleculeSegmentSafe, 400, "invalid_path_segment"),
        check(Fact::NameSegmentSafe, 400, "invalid_path_segment"),
        check(Fact::DirectoryMade, 503, "artifact_dir_unavailable"),
        check(Fact::DigestAgrees, 400, "digest_mismatch"),
        check(Fact::IfMatchHolds, 412, "if_match_failed"),
        check(Fact::FileWritten, 503, "artifact_write_failed"),
        Stage::Answer { status: 201 },
    ]
}

// ---------------------------------------------------------------------------
// Laws
// ---------------------------------------------------------------------------

/// Tokens can stand in a URL as they are: letters, digits and one underscore.
pub proof fn law_tokens_are_url_safe(bytes: Seq<u8>, i: int)
    requires
        0 <= i < base32_of(bytes).len(),
    ensures
        text::is_digit(base32_of(bytes)[i]) || 'a' <= base32_of(bytes)[i] <= 'z',
{
    reveal_strlit("0123456789abcdefghjkmnpqrstvwxyz");
}

proof fn lemma_value_of_char(v: int)
    requires
        0 <= v < 32,
    ensures
        base32_value(base32_char(v)) == v,
{
    reveal_strlit("0123456789abcdefghjkmnpqrstvwxyz");
    let alphabet = "0123456789abcdefghjkmnpqrstvwxyz"@;
    assert(alphabet[v] == base32_char(v));
    assert forall|w: int| 0 <= w < 32 && alphabet[w] == base32_char(v) implies w == v by {}
}

/// The five bits as the window they are cut from.
proof fn lemma_window(bytes: Seq<u8>, i: int, start: int, skipped: int)
    requires
        0 <= start,
        0 <= skipped < 8,
        5 * i == 8 * start + skipped,
    ensures
        five_bits(bytes, i) == (digest::byte_at(bytes, start) * 256 + digest::byte_at(bytes, start + 1)) / low_end(skipped) % 32,
        0 <= digest::byte_at(bytes, start) < 256,
        0 <= digest::byte_at(bytes, start + 1) < 256,
{
    assert(5 * i / 8 == start);
    assert(5 * i % 8 == skipped);
}

/// What the five bits are of the two bytes of the window.
spec fn cut(x: int, n: int, skipped: int) -> int {
    if skipped == 0 {
        x / 8
    } else if skipped == 1 {
        x / 4 % 32
    } else if skipped == 2 {
        x / 2 % 32
    } else if skipped == 3 {
        x % 32
    } else if skipped == 4 {
        x % 16 * 2 + n / 128
    } else if skipped == 5 {
        x % 8 * 4 + n / 64
    } else if skipped == 6 {
        x % 4 * 8 + n / 32
    } else {
        x % 2 * 16 + n / 16
    }
}

proof fn lemma_cut(x: u32, n: u32, skipped: int)
    requires
        x < 256,
        n < 256,
        0 <= skipped < 8,
    ensures
        (x * 256 + n) / low_end(skipped) % 32 == cut(x as int, n as int, skipped),
{
    if skipped == 0 {
        assert((x * 256 + n) / 2048 % 32 == x / 8) by (bit_vector)
            requires
                x < 256,
                n < 256,
        ;
    } else if skipped == 1 {
        assert((x * 256 + n) / 1024 % 32 == x / 4 % 32) by (bit_vector)
            requires
                x < 256,
                n < 256,
        ;
    } else if skipped == 2 {
        assert((x * 256 + n) / 512 % 32 == x / 2 % 32) by (bit_vector)
            requires
                x < 256,
                n < 256,
        ;
    } else if skipped == 3 {
        assert((x * 256 + n) / 256 % 32 == x % 32) by (bit_vector)
            requires
                x < 256,
                n < 256,
        ;
    } else if skipped == 4 {
        assert((x * 256 + n) / 128 % 32 == x % 16 * 2 + n / 128) by (bit_vector)
            requires
                x < 256,
                n < 256,
        ;
    } else if skipped == 5 {
        assert((x * 256 + n) / 64 % 32 == x % 8 * 4 + n / 64) by (bit_vector)
            requires
                x < 256,
                n < 256,
        ;
    } else if skipped == 6 {
        assert((x * 256 + n) / 32 % 32 == x % 4 * 8 + n / 32) by (bit_vector)
            requires
                x < 256,
                n < 256,
        ;
    } else {
        assert((x * 256 + n) / 16 % 32 == x % 2 * 16 + n / 16) by (bit_vector)
            requires
                x < 256,
                n < 256,
        ;
    }
}

/// What a character of the text says of the two bytes of its window.
proof fn lemma_value_at(bytes: Seq<u8>, i: int, start: int, skipped: int)
    requires
        0 <= start,
        0 <= skipped < 8,
        5 * i == 8 * start + skipped,
    ensures
        base32_value_at(base32_of(bytes), i) == cut(digest::byte_at(bytes, start), digest::byte_at(bytes, start + 1), skipped),
{
    lemma_window(bytes, i, start, skipped);
    lemma_cut(digest::byte_at(bytes, start) as u32, digest::byte_at(bytes, start + 1) as u32, skipped);
    if i < base32_of(bytes).len() {
        lemma_value_of_char(five_bits(bytes, i));
    } else {
        assert(start >= bytes.len());
    }
}

/// The eight bits as the window they are cut from.
proof fn lemma_eight(s: Seq<char>, j: int, start: int, skipped: int)
    requires
        0 <= skipped < 5,
        8 * j == 5 * start + skipped,
    ensures
        eight_bits(s, j) == (base32_value_at(s, start) * 1024 + base32_value_at(s, start + 1) * 32 + base32_value_at(
            s,
            start + 2,
        )) / byte_low_end(skipped) % 256,
{
    assert(8 * j / 5 == start);
    assert(8 * j % 5 == skipped);
}

proof fn lemma_first_byte(bytes: Seq<u8>, t: int, j: int)
    requires
        0 <= j < bytes.len(),
        j == 5 * t,
    ensures
        eight_bits(base32_of(bytes), j) == bytes[j],
{
    let x = digest::byte_at(bytes, j) as u32;
    let n = digest::byte_at(bytes, j + 1) as u32;
    lemma_value_at(bytes, 8 * t, j, 0);
    lemma_value_at(bytes, 8 * t + 1, j, 5);
    lemma_value_at(bytes, 8 * t + 2, j + 1, 2);
    lemma_eight(base32_of(bytes), j, 8 * t, 0);
    assert((x / 8 * 1024 + (x % 8 * 4 + n / 64) * 32 + n / 2 % 32) / 128 % 256 == x) by (bit_vector)
        requires
            x < 256,
            n < 256,
    ;
}

proof fn lemma_second_byte(bytes: Seq<u8>, t: int, j: int)
    requires
        0 <= j < bytes.len(),
        j == 5 * t + 1,
    ensures
        eight_bits(base32_of(bytes), j) == bytes[j],
{
    let p = digest::byte_at(bytes, j - 1) as u32;
    let x = digest::byte_at(bytes, j) as u32;
    let n = digest::byte_at(bytes, j + 1) as u32;
    lemma_value_at(bytes, 8 * t + 1, j - 1, 5);
    lemma_value_at(bytes, 8 * t + 2, j, 2);
    lemma_value_at(bytes, 8 * t + 3, j, 7);
    lemma_eight(base32_of(bytes), j, 8 * t + 1, 3);
    assert(((p % 8 * 4 + x / 64) * 1024 + x / 2 % 32 * 32 + (x % 2 * 16 + n / 16)) / 16 % 256 == x) by (bit_vector)
        requires
            p < 256,
            x < 256,
            n < 256,
    ;
}

proof fn lemma_third_byte(bytes: Seq<u8>, t: int, j: int)
    requires
        0 <= j < bytes.len(),
        j == 5 * t + 2,
    ensures
        eight_bits(base32_of(bytes), j) == bytes[j],
{
    let p = digest::byte_at(bytes, j - 1) as u32;
    let x = digest::byte_at(bytes, j) as u32;
    let n = digest::byte_at(bytes, j + 1) as u32;
    lemma_value_at(bytes, 8 * t + 3, j - 1, 7);
    lemma_value_at(bytes, 8 * t + 4, j, 4);
    lemma_value_at(bytes, 8 * t + 5, j + 1, 1);
    lemma_eight(base32_of(bytes), j, 8 * t + 3, 1);
    assert(((p % 2 * 16 + x / 16) * 1024 + (x % 16 * 2 + n / 128) * 32 + n / 4 % 32) / 64 % 256 == x) by (bit_vector)
        requires
            p < 256,
            x < 256,
            n < 256,
    ;
}

proof fn lemma_fourth_byte(bytes: Seq<u8>, t: int, j: int)
    requires
        0 <= j < bytes.len(),
        j == 5 * t + 3,
    ensures
        eight_bits(base32_of(bytes), j) == bytes[j],
{
    let p = digest::byte_at(bytes, j - 1) as u32;
    let x = digest::byte_at(bytes, j) as u32;
    let n = digest::byte_at(bytes, j + 1) as u32;
    lemma_value_at(bytes, 8 * t + 4, j - 1, 4);
    lemma_value_at(bytes, 8 * t + 5, j, 1);
    lemma_value_at(bytes, 8 * t + 6, j, 6);
    lemma_eight(base32_of(bytes), j, 8 * t + 4, 4);
    assert(((p % 16 * 2 + x / 128) * 1024 + x / 4 % 32 * 32 + (x % 4 * 8 + n / 32)) / 8 % 256 == x) by (bit_vector)
        requires
            p < 256,
            x < 256,
            n < 256,
    ;
}

proof fn lemma_fifth_byte(bytes: Seq<u8>, t: int, j: int)
    requires
        0 <= j < bytes.len(),
        j == 5 * t + 4,
    ensures
        eight_bits(base32_of(bytes), j) == bytes[j],
{
    let p = digest::byte_at(bytes, j - 1) as u32;
    let x = digest::byte_at(bytes, j) as u32;
    let n = digest::byte_at(bytes, j + 1) as u32;
    lemma_value_at(bytes, 8 * t + 6, j - 1, 6);
    lemma_value_at(bytes, 8 * t + 7, j, 3);
    lemma_value_at(bytes, 8 * t + 8, j + 1, 0);
    lemma_eight(base32_of(bytes), j, 8 * t + 6, 2);
    assert(((p % 4 * 8 + x / 32) * 1024 + x % 32 * 32 + n / 8) / 32 % 256 == x) by (bit_vector)
        requires
            p < 256,
            x < 256,
            n < 256,
    ;
}

proof fn lemma_byte_reads_back(bytes: Seq<u8>, j: int)
    requires
        0 <= j < bytes.len(),
    ensures
        eight_bits(base32_of(bytes), j) == bytes[j],
{
    let t = j / 5;
    if j % 5 == 0 {
        lemma_first_byte(bytes, t, j);
    } else if j % 5 == 1 {
        lemma_second_byte(bytes, t, j);
    } else if j % 5 == 2 {
        lemma_third_byte(bytes, t, j);
    } else if j % 5 == 3 {
        lemma_fourth_byte(bytes, t, j);
    } else {
        lemma_fifth_byte(bytes, t, j);
    }
}

/// What was written in base 32 is read back.
pub proof fn law_base32_reads_back(bytes: Seq<u8>)
    ensures
        base32_bytes_of(base32_of(bytes)) == bytes,
{
    assert(5 * base32_of(bytes).len() / 8 == bytes.len());
    assert forall|j: int| 0 <= j < bytes.len() implies base32_bytes_of(base32_of(bytes))[j] == bytes[j] by {
        lemma_byte_reads_back(bytes, j);
    }
    assert(base32_bytes_of(base32_of(bytes)) =~= bytes);
}

/// The bits of the last character that no byte fills are zero.
pub proof fn law_base32_spare_bits_are_zero(bytes: Seq<u8>)
    requires
        bytes.len() > 0,
    ensures
        base32_value(base32_of(bytes).last()) % spare(bytes.len() as int) == 0,
{
    let len = bytes.len() as int;
    let last = base32_of(bytes).len() - 1;
    let x = digest::byte_at(bytes, len - 1);
    let t = len / 5;
    if len % 5 == 0 {
        assert(last == 8 * t - 1);
        lemma_value_at(bytes, last, len - 1, 3);
    } else if len % 5 == 1 {
        assert(last == 8 * t + 1);
        lemma_value_at(bytes, last, len - 1, 5);
        assert((x % 8 * 4) % 4 == 0);
    } else if len % 5 == 2 {
        assert(last == 8 * t + 3);
        lemma_value_at(bytes, last, len - 1, 7);
        assert((x % 2 * 16) % 16 == 0);
    } else if len % 5 == 3 {
        assert(last == 8 * t + 4);
        lemma_value_at(bytes, last, len - 1, 4);
        assert((x % 16 * 2) % 2 == 0);
    } else {
        assert(last == 8 * t + 6);
        lemma_value_at(bytes, last, len - 1, 6);
        assert((x % 4 * 8) % 8 == 0);
    }
}

/// The base 32 text loses nothing: different byte strings have different texts.
pub proof fn law_base32_is_injective(a: Seq<u8>, b: Seq<u8>)
    requires
        base32_of(a) == base32_of(b),
    ensures
        a == b,
{
    law_base32_reads_back(a);
    law_base32_reads_back(b);
}

/// What the manifest lists can be fetched: every entry is a shown file under the
/// token of its name, and a lookup of that token finds a first entry with it,
/// which is the entry itself where no other name has its token.
pub proof fn law_listed_files_can_be_fetched(
    entries: Seq<ArtifactEntry>,
    molecule_id: Seq<char>,
    files: Seq<ScannedFile>,
    i: int,
)
    requires
        manifest_of(entries, molecule_id, files),
        0 <= i < entries.len(),
    ensures
        entries[i].token@ == token_of(molecule_id, entries[i].name@),
        shown(entries[i].name@),
        exists|at: int| 0 <= at <= i && #[trigger] is_first_with(entries, entries[i].token@, at),
        (forall|k: int| 0 <= k < i ==> (#[trigger] entries[k]).token@ != entries[i].token@) ==> is_first_with(
            entries,
            entries[i].token@,
            i,
        ),
{
    let wanted = shown_files(files);
    let at = choose|at: Seq<int>|
        {
            &&& at.len() == wanted.len()
            &&& #[trigger] rearranges(at)
            &&& forall|i: int| 0 <= i < at.len() ==> lists_file(#[trigger] entries[i], molecule_id, wanted[at[i]])
        };
    assert(lists_file(entries[i], molecule_id, wanted[at[i]]));
    lemma_shown(files, at[i]);
    lemma_first_with(entries, entries[i].token@, i);
}

proof fn lemma_first_with(entries: Seq<ArtifactEntry>, token: Seq<char>, i: int)
    requires
        0 <= i < entries.len(),
        entries[i].token@ == token,
    ensures
        exists|at: int| 0 <= at <= i && #[trigger] is_first_with(entries, token, at),
    decreases i,
{
    if exists|k: int| 0 <= k < i && (#[trigger] entries[k]).token@ == token {
        let k = choose|k: int| 0 <= k < i && (#[trigger] entries[k]).token@ == token;
        lemma_first_with(entries, token, k);
    } else {
        assert(is_first_with(entries, token, i));
    }
}

proof fn lemma_shown(files: Seq<ScannedFile>, k: int)
    requires
        0 <= k < shown_files(files).len(),
    ensures
        shown(shown_files(files)[k].name@),
    decreases files.len(),
{
    if files.len() > 0 {
        let rest = shown_files(files.drop_last());
        if k < rest.len() {
            lemma_shown(files.drop_last(), k);
        }
    }
}

/// The digest of a file as it stands allows a conditional upload of that file,
/// bare or in quotes as an entity tag; no digest allows one where the file is
/// missing.
pub proof fn law_current_etag_allows_the_upload(bytes: Seq<u8>, hex: Seq<char>)
    requires
        hex == digest::blake3_hex_of(bytes),
        hex.len() > 0,
        forall|i: int| 0 <= i < hex.len() ==> digest::is_lower_hex(#[trigger] hex[i]),
    ensures
        if_match_holds(Some(hex), Some(bytes)),
        if_match_holds(Some(seq!['"'] + hex + seq!['"']), Some(bytes)),
        !if_match_holds(Some(hex), None),
{
    assert(digest::is_lower_hex(hex[0]));
    assert(digest::is_lower_hex(hex.last()));
    let quoted = seq!['"'] + hex + seq!['"'];
    assert(quoted.skip(1) =~= hex + seq!['"']);
    assert((hex + seq!['"']).drop_last() =~= hex);
    assert((hex + seq!['"'])[0] == hex[0]);
    reveal_with_fuel(text::trim_start_char, 3);
    reveal_with_fuel(text::trim_end_char, 3);
}

/// The base 32 alphabet is the ten digits and the lower-case letters but i, l, o and
/// u, in their order.
pub proof fn law_base32_alphabet(v: int)
    requires
        0 <= v < 32,
    ensures
        v < 10 ==> base32_char(v) as int == '0' as int + v,
        10 <= v < 18 ==> base32_char(v) as int == 'a' as int + (v - 10),
        18 <= v < 20 ==> base32_char(v) as int == 'j' as int + (v - 18),
        20 <= v < 22 ==> base32_char(v) as int == 'm' as int + (v - 20),
        22 <= v < 27 ==> base32_char(v) as int == 'p' as int + (v - 22),
        27 <= v < 32 ==> base32_char(v) as int == 'v' as int + (v - 27),
        base32_value(base32_char(v)) == v,
{
    reveal_strlit("0123456789abcdefghjkmnpqrstvwxyz");
    lemma_value_of_char(v);
}

/// A token hides the name behind a digest of the molecule, a slash and the name.
pub proof fn law_tokens_are_digests(molecule_id: Seq<char>, name: Seq<char>)
    requires
        digest::sha256_of(digest::utf8(molecule_id) + seq![47u8] + digest::utf8(name)).len() == 32,
    ensures
        token_of(molecule_id, name).len() == 28,
        token_of(molecule_id, name).take(4) == "art_"@,
        base32_bytes_of(token_of(molecule_id, name).skip(4)) == digest::sha256_of(
            digest::utf8(molecule_id) + seq![47u8] + digest::utf8(name),
        ).take(15),
{
    reveal_strlit("art_");
    let head = digest::sha256_of(token_input(molecule_id, name)).take(15);
    law_base32_reads_back(head);
    assert(token_of(molecule_id, name).take(4) =~= "art_"@);
    assert(token_of(molecule_id, name).skip(4) =~= base32_of(head));
}

/// The media type of each known extension, and of any other.
pub proof fn law_media_types(ext: Seq<char>)
    ensures
        media_type("txt"@) == "text/plain"@,
        media_type("md"@) == "text/plain"@,
        media_type("log"@) == "text/plain"@,
        media_type("json"@) == "application/json"@,
        media_type("yaml"@) == "application/yaml"@,
        media_type("yml"@) == "application/yaml"@,
        media_type("html"@) == "text/html"@,
        media_type("htm"@) == "text/html"@,
        media_type("csv"@) == "text/csv"@,
        media_type("png"@) == "image/png"@,
        media_type("jpg"@) == "image/jpeg"@,
        media_type("jpeg"@) == "image/jpeg"@,
        media_type("svg"@) == "image/svg+xml"@,
        media_type("pdf"@) == "application/pdf"@,
        media_type("toml"@) == "application/toml"@,
        ext != "txt"@ && ext != "md"@ && ext != "log"@ && ext != "json"@ && ext != "yaml"@ && ext != "yml"@ && ext != "html"@ && ext != "htm"@ && ext != "csv"@ && ext != "png"@ && ext != "jpg"@ && ext != "jpeg"@ && ext != "svg"@ && ext != "pdf"@ && ext != "toml"@ ==> media_type(ext) == "application/octet-stream"@,
{
    reveal_strlit("txt");
    reveal_strlit("md");
    reveal_strlit("log");
    reveal_strlit("json");
    reveal_strlit("yaml");
    reveal_strlit("yml");
    reveal_strlit("html");
    reveal_strlit("htm");
    reveal_strlit("csv");
    reveal_strlit("png");
    reveal_strlit("jpg");
    reveal_strlit("jpeg");
    reveal_strlit("svg");
    reveal_strlit("pdf");
    reveal_strlit("toml");
    assert("txt"@.len() == 3 && "txt"@[0] == 't' && "txt"@[1] == 'x');
    assert("md"@.len() == 2 && "md"@[0] == 'm' && "md"@[1] == 'd');
    assert("log"@.len() == 3 && "log"@[0] == 'l' && "log"@[1] == 'o');
    assert("json"@.len() == 4 && "json"@[0] == 'j' && "json"@[1] == 's');
    assert("yaml"@.len() == 4 && "yaml"@[0] == 'y' && "yaml"@[1] == 'a');
    assert("yml"@.len() == 3 && "yml"@[0] == 'y' && "yml"@[1] == 'm');
    assert("html"@.len() == 4 && "html"@[0] == 'h' && "html"@[1] == 't');
    assert("htm"@.len() == 3 && "htm"@[0] == 'h' && "htm"@[1] == 't');
    assert("csv"@.len() == 3 && "csv"@[0] == 'c' && "csv"@[1] == 's');
    assert("png"@.len() == 3 && "png"@[0] == 'p' && "png"@[1] == 'n');
    assert("jpg"@.len() == 3 && "jpg"@[0] == 'j' && "jpg"@[1] == 'p');
    assert("jpeg"@.len() == 4 && "jpeg"@[0] == 'j' && "jpeg"@[1] == 'p');
    assert("svg"@.len() == 3 && "svg"@[0] == 's' && "svg"@[1] == 'v');
    assert("pdf"@.len() == 3 && "pdf"@[0] == 'p' && "pdf"@[1] == 'd');
    assert("toml"@.len() == 4 && "toml"@[0] == 't' && "toml"@[1] == 'o');
}

/// The extension is what stands behind the last dot, in lower case; a name without a
/// dot has none.
pub proof fn law_extensions_are_lower_case(stem: Seq<char>, ext: Seq<char>)
    requires
        !ext.contains('.'),
    ensures
        lower_extension(stem + seq!['.'] + ext) == text::lower_text(ext),
        lower_extension(ext) == Seq::<char>::empty(),
{
    let name = stem + seq!['.'] + ext;
    let low = text::lower_text(name);
    text::lemma_last_at(low, '.');
    assert(low[stem.len() as int] == '.');
    if text::last_at(low, '.') > stem.len() {
        let k = text::last_at(low, '.') - stem.len() - 1;
        assert(low[text::last_at(low, '.')] == text::lower(ext[k]));
        assert(ext[k] == '.');
    }
    assert(low.skip(stem.len() as int + 1) =~= text::lower_text(ext));
    let other = text::lower_text(ext);
    text::lemma_last_at(other, '.');
    if text::last_at(other, '.') >= 0 {
        let k = text::last_at(other, '.');
        assert(other[k] == text::lower(ext[k]));
        assert(ext[k] == '.');
    }
}

/// A segment stays in its directory: it is a name without separators and without two
/// dots in a row.
pub proof fn law_plain_segments(s: Seq<char>)
    ensures
        plain_segment(s) <==> s.len() > 0 && !s.contains('/') && !s.contains('\\') && (forall|i: int|
            0 <= i < s.len() - 1 && #[trigger] s[i] == '.' ==> s[i + 1] != '.'),
{
}

proof fn lemma_hex_is_bare(hex: Seq<char>)
    requires
        hex.len() > 0,
        forall|i: int| 0 <= i < hex.len() ==> text::is_hex_digit(#[trigger] hex[i]),
    ensures
        text::trimmed(hex) == hex,
        text::trim_char(hex, '"') == hex,
        text::trimmed(seq!['"'] + hex + seq!['"']) == seq!['"'] + hex + seq!['"'],
        text::trim_char(seq!['"'] + hex + seq!['"'], '"') == hex,
{
    assert(text::is_hex_digit(hex[0]) && text::is_hex_digit(hex[hex.len() - 1]));
    text::law_trimming(hex, ' ');
    text::law_trimming_a_character(hex, '"');
    let quoted = seq!['"'] + hex + seq!['"'];
    assert(quoted[0] == '"' && quoted.last() == '"');
    text::law_trimming(quoted, ' ');
    assert(quoted =~= seq!['"'] + (hex + seq!['"']));
    text::law_trimming_a_character(hex + seq!['"'], '"');
    assert(hex + seq!['"'] =~= hex.push('"'));
    assert((hex + seq!['"'])[0] == hex[0]);
}

/// A digest is declared by the name of the algorithm, in any case, and hexadecimal
/// digits, quoted or bare. What declares another algorithm declares nothing here.
pub proof fn law_declared_digests(algo: Seq<char>, hex: Seq<char>)
    requires
        hex.len() > 0,
        forall|i: int| 0 <= i < hex.len() ==> text::is_hex_digit(#[trigger] hex[i]),
        algo.len() > 0,
        !algo.contains('='),
        !text::is_white_space(algo[0]),
    ensures
        text::lower_text(algo) == "blake3"@ ==> declared_digest(algo + seq!['='] + hex) == Some(hex),
        text::lower_text(algo) == "blake3"@ ==> declared_digest(algo + seq!['='] + (seq!['"'] + hex + seq!['"'])) == Some(hex),
        text::lower_text(algo) != "blake3"@ ==> declared_digest(algo + seq!['='] + hex) is None,
        declared_digest(algo) is None,
{
    reveal_strlit("blake3");
    assert(text::lower_text("blake3"@) =~= "blake3"@);
    lemma_hex_is_bare(hex);
    let bare = algo + seq!['='] + hex;
    let quoted = algo + seq!['='] + (seq!['"'] + hex + seq!['"']);
    assert(text::is_hex_digit(hex[hex.len() - 1]));
    assert(bare[0] == algo[0] && bare.last() == hex.last());
    assert(quoted[0] == algo[0] && quoted.last() == '"');
    text::law_trimming(bare, ' ');
    text::law_trimming(quoted, ' ');
    text::lemma_first_behind(algo, '=', hex);
    text::lemma_first_behind(algo, '=', seq!['"'] + hex + seq!['"']);
    assert(bare.take(algo.len() as int) =~= algo);
    assert(quoted.take(algo.len() as int) =~= algo);
    assert(bare.skip(algo.len() as int + 1) =~= hex);
    assert(quoted.skip(algo.len() as int + 1) =~= seq!['"'] + hex + seq!['"']);
    let t = text::trimmed(algo);
    text::lemma_first_at(t, '=');
    if t.contains('=') {
        text::lemma_trimmed_within(algo, '=');
    }
}

/// An upload agrees with what it declares, and one that declares nothing that can be
/// read goes unchecked.
pub proof fn law_uploads_are_checked(header: Seq<char>, body: Seq<u8>)
    ensures
        digest_agrees(None, body),
        declared_digest(header) is None ==> digest_agrees(Some(header), body),
        declared_digest(header) is Some ==> (digest_agrees(Some(header), body) <==> declared_digest(header) == Some(
            digest::blake3_hex_of(body),
        )),
{
}

/// A conditional upload goes on where nothing is asked, or where the file is there and
/// has the digest that is asked for, quoted or bare.
pub proof fn law_conditional_uploads(hex: Seq<char>, existing: Seq<u8>)
    requires
        hex.len() > 0,
        forall|i: int| 0 <= i < hex.len() ==> text::is_hex_digit(#[trigger] hex[i]),
    ensures
        if_match_holds(None, None),
        if_match_holds(None, Some(existing)),
        !if_match_holds(Some(hex), None),
        if_match_holds(Some(hex), Some(existing)) == (digest::blake3_hex_of(existing) == hex),
        if_match_holds(Some(seq!['"'] + hex + seq!['"']), Some(existing)) == (digest::blake3_hex_of(existing) == hex),
{
    lemma_hex_is_bare(hex);
}

/// An entry tells its file by name, type, size, digest, time and token.
pub proof fn law_entries_describe_their_file(
    e: ArtifactEntry,
    molecule_id: Seq<char>,
    name: Seq<char>,
    content_type: Seq<char>,
    bytes: Seq<u8>,
    created_at: Seq<char>,
)
    ensures
        describes(e, molecule_id, name, content_type, bytes, created_at) <==> e.name@ == name && e.content_type@
            == content_type && e.size_bytes == bytes.len() && e.integrity.algo@ == "blake3"@ && e.integrity.hex@
            == digest::blake3_hex_of(bytes) && e.created_at@ == created_at && e.token@ == token_of(molecule_id, name),
{
}

/// A file is shown unless its name begins with a dot, and the shown files keep the
/// order in which they were found.
pub proof fn law_hidden_files(files: Seq<ScannedFile>, f: ScannedFile)
    ensures
        shown(f.name@) <==> f.name@.len() == 0 || f.name@[0] != '.',
        shown_files(Seq::empty()).len() == 0,
        shown(f.name@) ==> shown_files(files.push(f)) == shown_files(files).push(f),
        !shown(f.name@) ==> shown_files(files.push(f)) == shown_files(files),
{
    assert(files.push(f).drop_last() =~= files);
}

proof fn lemma_rearranged_covers(at: Seq<int>, k: int)
    requires
        rearranges(at),
        0 <= k < at.len(),
    ensures
        exists|i: int| 0 <= i < at.len() && #[trigger] at[i] == k,
{
    let range = vstd::set_lib::set_int_range(0, at.len() as int);
    vstd::set_lib::lemma_int_range(0, at.len() as int);
    at.unique_seq_to_set();
    assert(at.to_set().subset_of(range)) by {
        assert forall|x: int| at.to_set().contains(x) implies range.contains(x) by {
            let i = choose|i: int| 0 <= i < at.len() && at[i] == x;
            assert(0 <= at[i] < at.len());
        }
    }
    vstd::set_lib::lemma_subset_equality(at.to_set(), range);
    assert(at.to_set().contains(k));
}

/// The manifest lists every file that is shown, and as many entries as there are such
/// files, in the order of their names.
pub proof fn law_every_shown_file_is_listed(
    entries: Seq<ArtifactEntry>,
    molecule_id: Seq<char>,
    files: Seq<ScannedFile>,
    k: int,
)
    requires
        manifest_of(entries, molecule_id, files),
        0 <= k < shown_files(files).len(),
    ensures
        entries.len() == shown_files(files).len(),
        exists|i: int|
            0 <= i < entries.len() && describes(
                #[trigger] entries[i],
                molecule_id,
                shown_files(files)[k].name@,
                media_type(lower_extension(shown_files(files)[k].name@)),
                shown_files(files)[k].bytes@,
                clock::rfc3339_of(shown_files(files)[k].modified.secs, shown_files(files)[k].modified.nanos),
            ),
        forall|i: int, j: int|
            0 <= i < j < entries.len() ==> order::text_le((#[trigger] entries[i]).name@, (#[trigger] entries[j]).name@),
{
    let wanted = shown_files(files);
    let at = choose|at: Seq<int>|
        {
            &&& at.len() == wanted.len()
            &&& #[trigger] rearranges(at)
            &&& forall|i: int| 0 <= i < at.len() ==> lists_file(#[trigger] entries[i], molecule_id, wanted[at[i]])
        };
    lemma_rearranged_covers(at, k);
    let i = choose|i: int| 0 <= i < at.len() && #[trigger] at[i] == k;
    assert(lists_file(entries[i], molecule_id, wanted[at[i]]));
}

/// A token leads to the first entry that has it.
pub proof fn law_first_entry_with_a_token(entries: Seq<ArtifactEntry>, token: Seq<char>, at: int)
    ensures
        is_first_with(entries, token, at) <==> 0 <= at < entries.len() && entries[at].token@ == token && (forall|k: int|
            0 <= k < at ==> (#[trigger] entries[k]).token@ != token),
{
}

/// The five bits at a place of a group, from the two bytes they lie in.
proof fn lemma_five_bits_at(bytes: Seq<u8>, k: int, j: int)
    requires
        k >= 0,
        0 <= j < 8,
    ensures
        five_bits(bytes, 8 * k + j) == (digest::byte_at(bytes, 5 * k + 5 * j / 8) * 256 + digest::byte_at(
            bytes,
            5 * k + 5 * j / 8 + 1,
        )) / low_end(5 * j % 8) % 32,
{
    assert(5 * (8 * k + j) / 8 == 5 * k + 5 * j / 8);
    assert(5 * (8 * k + j) % 8 == 5 * j % 8);
}

/// A window of two bytes, cut at each place where a group cuts one.
proof fn lemma_windows(a: int, b: int)
    requires
        0 <= a < 256,
        0 <= b < 256,
    ensures
        (a * 256 + b) / 2048 % 32 == a / 8,
        (a * 256 + b) / 64 % 32 == a % 8 * 4 + b / 64,
        (a * 256 + b) / 512 % 32 == a / 2 % 32,
        (a * 256 + b) / 128 % 32 == a % 16 * 2 + b / 128,
        (a * 256 + b) / 16 % 32 == a % 2 * 16 + b / 16,
        (a * 256 + b) / 1024 % 32 == a / 4 % 32,
        (a * 256 + b) / 32 % 32 == a % 4 * 8 + b / 32,
        (a * 256 + b) / 256 % 32 == a % 32,
{
    let x = a as u32;
    let y = b as u32;
    assert((x * 256 + y) / 2048 % 32 == x / 8 && (x * 256 + y) / 64 % 32 == x % 8 * 4 + y / 64 && (x * 256 + y) / 512 % 32
        == x / 2 % 32 && (x * 256 + y) / 128 % 32 == x % 16 * 2 + y / 128 && (x * 256 + y) / 16 % 32 == x % 2 * 16 + y / 16
        && (x * 256 + y) / 1024 % 32 == x / 4 % 32 && (x * 256 + y) / 32 % 32 == x % 4 * 8 + y / 32 && (x * 256 + y) / 256
        % 32 == x % 32) by (bit_vector)
        requires
            x < 256,
            y < 256,
    ;
}

/// Eight characters spell five bytes: read as digits they give the same number, and
/// none is out of range.
pub proof fn law_base32_spells_every_group(bytes: Seq<u8>, k: int)
    requires
        k >= 0,
    ensures
        digest::byte_at(bytes, 5 * k) * 4294967296 + digest::byte_at(bytes, 5 * k + 1) * 16777216 + digest::byte_at(
            bytes,
            5 * k + 2,
        ) * 65536 + digest::byte_at(bytes, 5 * k + 3) * 256 + digest::byte_at(bytes, 5 * k + 4) == five_bits(bytes, 8 * k)
            * 34359738368 + five_bits(bytes, 8 * k + 1) * 1073741824 + five_bits(bytes, 8 * k + 2) * 33554432 + five_bits(
            bytes,
            8 * k + 3,
        ) * 1048576 + five_bits(bytes, 8 * k + 4) * 32768 + five_bits(bytes, 8 * k + 5) * 1024 + five_bits(bytes, 8 * k + 6)
            * 32 + five_bits(bytes, 8 * k + 7),
        forall|i: int| 0 <= #[trigger] five_bits(bytes, i) < 32,
{
    let a = digest::byte_at(bytes, 5 * k);
    let b = digest::byte_at(bytes, 5 * k + 1);
    let c = digest::byte_at(bytes, 5 * k + 2);
    let d = digest::byte_at(bytes, 5 * k + 3);
    let e = digest::byte_at(bytes, 5 * k + 4);
    let f = digest::byte_at(bytes, 5 * k + 5);
    assert(five_bits(bytes, 8 * k) == a / 8) by {
        lemma_five_bits_at(bytes, k, 0);
        lemma_windows(a, b);
    }
    assert(five_bits(bytes, 8 * k + 1) == a % 8 * 4 + b / 64) by {
        lemma_five_bits_at(bytes, k, 1);
        lemma_windows(a, b);
    }
    assert(five_bits(bytes, 8 * k + 2) == b / 2 % 32) by {
        lemma_five_bits_at(bytes, k, 2);
        lemma_windows(b, c);
    }
    assert(five_bits(bytes, 8 * k + 3) == b % 2 * 16 + c / 16) by {
        lemma_five_bits_at(bytes, k, 3);
        lemma_windows(b, c);
    }
    assert(five_bits(bytes, 8 * k + 4) == c % 16 * 2 + d / 128) by {
        lemma_five_bits_at(bytes, k, 4);
        lemma_windows(c, d);
    }
    assert(five_bits(bytes, 8 * k + 5) == d / 4 % 32) by {
        lemma_five_bits_at(bytes, k, 5);
        lemma_windows(d, e);
    }
    assert(five_bits(bytes, 8 * k + 6) == d % 4 * 8 + e / 32) by {
        lemma_five_bits_at(bytes, k, 6);
        lemma_windows(d, e);
    }
    assert(five_bits(bytes, 8 * k + 7) == e % 32) by {
        lemma_five_bits_at(bytes, k, 7);
        lemma_windows(e, f);
    }
    lemma_five_digits(a, b, c, d, e);
}

/// Five bytes in digits of five bits.
proof fn lemma_five_digits(a: int, b: int, c: int, d: int, e: int)
    requires
        0 <= a < 256,
        0 <= b < 256,
        0 <= c < 256,
        0 <= d < 256,
        0 <= e < 256,
    ensures
        a * 4294967296 + b * 16777216 + c * 65536 + d * 256 + e == (a / 8) * 34359738368 + (a % 8 * 4 + b / 64) * 1073741824
            + (b / 2 % 32) * 33554432 + (b % 2 * 16 + c / 16) * 1048576 + (c % 16 * 2 + d / 128) * 32768 + (d / 4 % 32) * 1024
            + (d % 4 * 8 + e / 32) * 32 + e % 32,
{
    assert(b == b / 64 * 64 + b / 2 % 32 * 2 + b % 2);
    assert(d == d / 128 * 128 + d / 4 % 32 * 4 + d % 4);
    assert(a == a / 8 * 8 + a % 8);
    assert(c == c / 16 * 16 + c % 16);
    assert(e == e / 32 * 32 + e % 32);
}

/// A text of base 32 has a character for every five bits begun, in order.
pub proof fn law_base32_texts(bytes: Seq<u8>, i: int)
    ensures
        8 * bytes.len() <= 5 * base32_of(bytes).len() < 8 * bytes.len() + 5,
        0 <= i < base32_of(bytes).len() ==> base32_of(bytes)[i] == base32_char(five_bits(bytes, i)),
{
}

} // verus!
