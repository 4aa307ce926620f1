//! Precompiled components on disk. A file holds the digest of the component it was
//! compiled from, an authentication tag where there is a key, and the compiled code.
use crate::bytes::{ascii_bytes, ascii_of};
use crate::model::view_opt;
use crate::paths::{file_name, file_name_of};
use crate::text::same_text;
use vstd::prelude::*;

verus! {

/// The length of the digest at the front of a file.
pub const DIGEST_LEN: usize = 32;

/// The length of the authentication key.
pub const KEY_LEN: usize = 32;

/// The byte of a `/`.
pub const SLASH: u8 = 47;

/// The version of the compiler that the code is bound to.
pub fn wasmtime_version() -> (r: &'static str)
    ensures
        r@ == "46.0.1"@,
{
    "46.0.1"
}

/// The identity of the engine: compiled code of another one is not accepted.
pub fn engine_version(package_version: &str) -> (r: String)
    ensures
        r@ == "ducklink-host-"@ + package_version@ + "-wasmtime-"@ + "46.0.1"@ + "-cm-exn"@,
{
    let mut out = "ducklink-host-".to_owned();
    out.append(package_version);
    out.append("-wasmtime-");
    out.append(wasmtime_version());
    out.append("-cm-exn");
    out
}

/// The machine that the code is compiled for.
pub fn target(arch: &str, os: &str) -> (r: String)
    ensures
        r@ == arch@ + "-"@ + os@,
{
    let mut out = arch.to_owned();
    out.append("-");
    out.append(os);
    out
}

/// A path below a directory, both as bytes: with one `/` between them.
pub open spec fn below(dir: Seq<u8>, rel: Seq<u8>) -> Seq<u8> {
    if dir.len() == 0 || dir.last() == SLASH {
        dir + rel
    } else {
        dir.push(SLASH) + rel
    }
}

/// The key's file below the cache directory.
pub const KEY_FILE: &'static str = "ducklink/compile-hmac.key";

/// Where the key is kept, given the user's cache directory. Paths are bytes, so that
/// one that is no valid Unicode is kept as it is.
pub fn key_path(cache_dir: Option<Vec<u8>>) -> (r: Option<Vec<u8>>)
    ensures
        view_opt(r) == match cache_dir {
            Some(d) => Some(below(d@, ascii_of(KEY_FILE@))),
            None => None,
        },
{
    match cache_dir {
        Some(d) => {
            let mut out = d;
            let n: usize = out.len();
            if n > 0 && out[n - 1] != SLASH {
                out.push(SLASH);
            }
            proof {
                reveal_strlit("ducklink/compile-hmac.key");
            }
            let mut rest = ascii_bytes(KEY_FILE);
            out.append(&mut rest);
            Some(out)
        },
        None => None,
    }
}

/// `dirs::cache_dir`, in the bytes by which `std` holds a path: the user's cache
/// directory, where there is one. It depends on the user and the machine, so nothing is
/// said of it.
#[verifier::external_body]
fn user_cache_dir() -> (r: Option<Vec<u8>>) {
    dirs::cache_dir().map(|d| d.into_os_string().into_encoded_bytes())
}

/// Where the key of this user is kept, on this machine: below some directory.
pub fn user_key_path() -> (r: Option<Vec<u8>>)
    ensures
        r matches Some(p) ==> exists|d: Seq<u8>| p@ == #[trigger] below(d, ascii_of(KEY_FILE@)),
{
    key_path(user_cache_dir())
}

/// The key that a key file holds: its bytes, if they have the right length.
pub fn accept_key(bytes: Vec<u8>) -> (r: Option<Vec<u8>>)
    ensures
        match r {
            Some(k) => bytes@.len() == KEY_LEN && k@ == bytes@,
            None => bytes@.len() != KEY_LEN,
        },
{
    if bytes.len() == KEY_LEN {
        Some(bytes)
    } else {
        None
    }
}

/// A new key from random bytes: the first ones, if there are enough.
pub fn key_from_pool(pool: &[u8]) -> (r: Option<Vec<u8>>)
    ensures
        match r {
            Some(k) => pool@.len() >= KEY_LEN && k@ == pool@.subrange(0, KEY_LEN as int),
            None => pool@.len() < KEY_LEN,
        },
{
    if pool.len() < KEY_LEN {
        return None;
    }
    Some(copy_range(pool, 0, KEY_LEN))
}

fn copy_range(bytes: &[u8], from: usize, to: usize) -> (r: Vec<u8>)
    requires
        from <= to <= bytes@.len(),
    ensures
        r@ == bytes@.subrange(from as int, to as int),
{
    let mut out: Vec<u8> = Vec::new();
    let mut i: usize = from;
    while i < to
        invariant
            from <= i <= to <= bytes@.len(),
            out@ == bytes@.subrange(from as int, i as int),
        decreases to - i,
    {
        out.push(bytes[i]);
        i += 1;
        assert(out@ =~= bytes@.subrange(from as int, i as int));
    }
    out
}

/// The file name ends in `.<ext>`, with something before it.
pub open spec fn has_extension(name: Seq<char>, ext: Seq<char>) -> bool {
    &&& name.len() > ext.len() + 1
    &&& name.skip(name.len() - ext.len()) == ext
    &&& name[name.len() - ext.len() - 1] == '.'
}

/// Tests the extension of a file name. The extension holds no dot.
pub fn name_has_extension(name: &str, ext: &str) -> (r: bool)
    ensures
        r == has_extension(name@, ext@),
{
    let n: usize = name.unicode_len();
    let k: usize = ext.unicode_len();
    if n <= k || n - k <= 1 {
        return false;
    }
    let tail = name.substring_char(n - k, n);
    assert(tail@ =~= name@.skip(n - k));
    same_text(tail, ext) && name.get_char(n - k - 1) == '.'
}

/// The path names a precompiled component.
pub fn is_precompiled(path: &str) -> (r: bool)
    ensures
        r == (file_name(path@) matches Some(name) && has_extension(name, "cwasm"@)),
{
    match file_name_of(path) {
        Some(name) => name_has_extension(name.as_str(), "cwasm"),
        None => false,
    }
}

/// Why a precompiled component is not loaded.
pub fn refusal_text(path: &str) -> (r: String)
    ensures
        r@ == "refusing to load "@ + path@
            + ": precompiled artifact failed HMAC verification (tampered or built for a different engine); delete it to recompile"@,
{
    let mut m = "refusing to load ".to_owned();
    m.append(path);
    m.append(
        ": precompiled artifact failed HMAC verification (tampered or built for a different engine); delete it to recompile",
    );
    m
}

/// The digest at the front of a file and what follows it.
pub open spec fn frame_parts(framed: Seq<u8>) -> Option<(Seq<u8>, Seq<u8>)> {
    if framed.len() >= DIGEST_LEN {
        Some((framed.take(DIGEST_LEN as int), framed.skip(DIGEST_LEN as int)))
    } else {
        None
    }
}

pub fn split_frame(framed: &[u8]) -> (r: Option<(Vec<u8>, Vec<u8>)>)
    ensures
        match r {
            Some((d, f)) => frame_parts(framed@) == Some((d@, f@)),
            None => frame_parts(framed@) is None,
        },
{
    if framed.len() < DIGEST_LEN {
        return None;
    }
    let d = copy_range(framed, 0, DIGEST_LEN);
    let f = copy_range(framed, DIGEST_LEN, framed.len());
    assert(d@ =~= framed@.take(DIGEST_LEN as int));
    assert(f@ =~= framed@.skip(DIGEST_LEN as int));
    Some((d, f))
}

/// What the keyed store said of a file's digest and sealed part.
#[derive(Debug)]
pub enum SealCheck {
    /// There is no key: nothing can be checked.
    NoKey,
    /// The compiled code, if the tag is right for it.
    Checked(Option<Vec<u8>>),
}

/// The compiled code that a file is trusted to hold: with a key what the check
/// released, without one all that follows the digest. A file shorter than a digest holds
/// none.
pub open spec fn opened(framed: Seq<u8>, check: SealCheck) -> Option<Seq<u8>> {
    match frame_parts(framed) {
        None => None,
        Some((_, frame)) => match check {
            SealCheck::Checked(code) => view_opt(code),
            SealCheck::NoKey => Some(frame),
        },
    }
}

pub fn open_cwasm(framed: &[u8], check: SealCheck) -> (r: Option<Vec<u8>>)
    ensures
        view_opt(r) == opened(framed@, check),
{
    if framed.len() < DIGEST_LEN {
        return None;
    }
    match check {
        SealCheck::Checked(code) => code,
        SealCheck::NoKey => {
            let code = copy_range(framed, DIGEST_LEN, framed.len());
            assert(code@ =~= framed@.skip(DIGEST_LEN as int));
            Some(code)
        },
    }
}

/// The sealed part of a new file: what the keyed store made, or the bare code where
/// there is no key.
pub open spec fn sealed_part(sealed: Option<Seq<u8>>, precompiled: Seq<u8>) -> Seq<u8> {
    match sealed {
        Some(s) => s,
        None => precompiled,
    }
}

pub fn seal_cwasm(sealed: Option<Vec<u8>>, precompiled: Vec<u8>) -> (r: Vec<u8>)
    ensures
        r@ == sealed_part(view_opt(sealed), precompiled@),
{
    match sealed {
        Some(s) => s,
        None => precompiled,
    }
}

/// A file: the digest, then the sealed part.
pub fn frame_artifact(digest: Vec<u8>, sealed: Vec<u8>) -> (r: Vec<u8>)
    ensures
        r@ == digest@ + sealed@,
{
    let mut out = digest;
    let mut rest = sealed;
    out.append(&mut rest);
    out
}

// ---------------------------------------------------------------------------
// Laws
// ---------------------------------------------------------------------------

/// A file comes apart into the digest and the sealed part that it was made of.
pub proof fn law_frame_splits_back(digest: Seq<u8>, sealed: Seq<u8>)
    requires
        digest.len() == DIGEST_LEN,
    ensures
        frame_parts(digest + sealed) == Some((digest, sealed)),
{
    assert((digest + sealed).take(DIGEST_LEN as int) =~= digest);
    assert((digest + sealed).skip(DIGEST_LEN as int) =~= sealed);
}

/// Without a key a file opens to all that stands behind its digest.
pub proof fn law_unkeyed_file_opens_whole(digest: Seq<u8>, code: Seq<u8>)
    requires
        digest.len() == DIGEST_LEN,
    ensures
        opened(digest + code, SealCheck::NoKey) == Some(code),
{
    law_frame_splits_back(digest, code);
}

/// The file that holds some code: sealed under the key, where there is one.
pub open spec fn sealed_file(
    seal: spec_fn(Seq<u8>, Seq<u8>, Seq<u8>) -> Seq<u8>,
    key: Option<Seq<u8>>,
    digest: Seq<u8>,
    code: Seq<u8>,
) -> Seq<u8> {
    digest + sealed_part(
        match key {
            Some(k) => Some(seal(k, digest, code)),
            None => None,
        },
        code,
    )
}

/// The check is what the keyed store says of a file under the key, or that there is no key.
pub open spec fn checks(
    open: spec_fn(Seq<u8>, Seq<u8>, Seq<u8>) -> Option<Seq<u8>>,
    key: Option<Seq<u8>>,
    framed: Seq<u8>,
    check: SealCheck,
) -> bool {
    match (key, frame_parts(framed)) {
        (None, _) => check is NoKey,
        (Some(k), Some((digest, frame))) => check matches SealCheck::Checked(code) && view_opt(code)
            == open(k, digest, frame),
        (Some(_), None) => true,
    }
}

/// What was sealed comes back, with a key and without one, for every keyed store that
/// opens under a key what it has sealed under it. The store's two functions take the key,
/// the digest, and the code or the sealed part.
pub proof fn law_sealed_code_comes_back(
    seal: spec_fn(Seq<u8>, Seq<u8>, Seq<u8>) -> Seq<u8>,
    open: spec_fn(Seq<u8>, Seq<u8>, Seq<u8>) -> Option<Seq<u8>>,
    key: Option<Seq<u8>>,
    digest: Seq<u8>,
    code: Seq<u8>,
    check: SealCheck,
)
    requires
        forall|k: Seq<u8>, d: Seq<u8>, c: Seq<u8>| #[trigger] open(k, d, seal(k, d, c)) == Some(c),
        digest.len() == DIGEST_LEN,
        checks(open, key, sealed_file(seal, key, digest, code), check),
    ensures
        opened(sealed_file(seal, key, digest, code), check) == Some(code),
{
    let sealed: Option<Seq<u8>> = match key {
        Some(k) => Some(seal(k, digest, code)),
        None => None,
    };
    law_frame_splits_back(digest, sealed_part(sealed, code));
}

/// With a key nothing is released that the check did not release.
pub proof fn law_refused_file_stays_closed(framed: Seq<u8>)
    ensures
        opened(framed, SealCheck::Checked(None)) is None,
{
}

/// A name has an extension where something, a dot and the extension make it up.
pub proof fn law_extension_of_a_name(stem: Seq<char>, ext: Seq<char>, name: Seq<char>)
    ensures
        has_extension(stem + seq!['.'] + ext, ext) <==> stem.len() > 0,
        has_extension(name, ext) ==> name == name.take(name.len() - ext.len() - 1) + seq!['.'] + ext,
{
    let whole = stem + seq!['.'] + ext;
    assert(whole.skip(whole.len() - ext.len()) =~= ext);
    if has_extension(name, ext) {
        assert(name =~= name.take(name.len() - ext.len() - 1) + seq![name[name.len() - ext.len() - 1]]
            + name.skip(name.len() - ext.len()));
    }
}

/// A file below a directory stands behind the directory and one slash, and the sizes of a
/// digest and of a key are 32 bytes.
pub proof fn law_file_below_a_directory(dir: Seq<u8>, rel: Seq<u8>)
    ensures
        dir.len() > 0 && dir.last() != 47 ==> below(dir, rel) == dir + seq![47u8] + rel,
        dir.len() == 0 || dir.last() == 47 ==> below(dir, rel) == dir + rel,
        DIGEST_LEN == 32,
        KEY_LEN == 32,
        KEY_FILE@ == "ducklink/compile-hmac.key"@,
{
    assert(dir.push(47u8) =~= dir + seq![47u8]);
}

/// A file that is too short for a digest is not opened, and sealing takes the sealed bytes
/// where there are any.
pub proof fn law_short_files_stay_closed(framed: Seq<u8>, check: SealCheck, code: Seq<u8>, sealed: Seq<u8>)
    ensures
        framed.len() < 32 ==> opened(framed, check) is None,
        sealed_part(Some(sealed), code) == sealed,
        sealed_part(None, code) == code,
{
}

} // verus!
