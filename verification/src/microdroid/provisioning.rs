//! Fetching confidential data into a virtual machine: what may be fetched, and to where.
use crate::path::{
    descending_path_stays_within, is_absolute, is_within, join, joined, never_ascends,
    path_is_absolute, place, starts_with,
};
use crate::text::{pieces, split_on, str_eq, texts};
use vstd::prelude::*;

verus! {

/// Where the contents of the payload's package are mounted.
pub const VM_APK_CONTENTS_PATH: &'static str = "/mnt/apk";

/// Where the encrypted store is mounted.
pub const ENCRYPTEDSTORE_MOUNTPOINT: &'static str = "/mnt/encryptedstore";

/// The program that fetches.
pub const PROVISIONING_CLIENT: &'static str = "/system/bin/ratls_get";

/// The mode of a fetched file: owner and group may read and write it.
pub const PROVISIONED_FILE_MODE: u32 = 0o660;

/// The arguments of the program that fetches.
pub fn run_provisioning_command(url: &str, ca_cert: &str, destination: &str) -> (r: Vec<String>)
    ensures
        texts(r@) == seq!["-u"@, url@, "-r"@, ca_cert@, "-o"@, destination@],
{
    let mut args: Vec<String> = Vec::new();
    args.push("-u".to_owned());
    args.push(url.to_owned());
    args.push("-r".to_owned());
    args.push(ca_cert.to_owned());
    args.push("-o".to_owned());
    args.push(destination.to_owned());
    assert(texts(args@) =~= seq!["-u"@, url@, "-r"@, ca_cert@, "-o"@, destination@]);
    args
}

/// Whether a path may be appended to the mount point of the encrypted store: a relative path
/// without two dots as a component.
pub open spec fn valid_destination(path: Seq<char>) -> bool {
    !is_absolute(path) && never_ascends(path)
}

/// Whether a path may be appended to the mount point of the encrypted store.
pub fn is_destination_path_valid(user_path: &str) -> (r: bool)
    ensures
        r == valid_destination(user_path@),
{
    if path_is_absolute(user_path) {
        return false;
    }
    let parts: Vec<String> = split_on(user_path, '/');
    let ghost view = pieces(user_path@, '/');
    assert(view.len() == parts@.len());
    let mut i: usize = 0;
    while i < parts.len()
        invariant
            i <= parts@.len(),
            view == pieces(user_path@, '/'),
            view == texts(parts@),
            forall|k: int| 0 <= k < i ==> (#[trigger] view[k]) != ".."@,
        decreases parts@.len() - i,
    {
        assert(view[i as int] == parts@[i as int]@);
        if str_eq(parts[i].as_str(), "..") {
            return false;
        }
        i = i + 1;
    }
    true
}

/// The directory of the package's assets.
pub fn assets_path() -> (r: String)
    ensures
        r@ == joined(VM_APK_CONTENTS_PATH@, "assets"@),
{
    join(VM_APK_CONTENTS_PATH, "assets")
}

/// Whether a certificate is one of the package's assets, from the real paths of the assets and of
/// the certificate, each `None` where it has none.
pub fn is_ca_cert_path_valid(assets_full_path: Option<&str>, full_ca_cert_path: Option<&str>) -> (r:
    bool)
    ensures
        r == (assets_full_path matches Some(a) && full_ca_cert_path matches Some(c) && is_within(
            c@,
            a@,
        )),
{
    match assets_full_path {
        Some(assets) => match full_ca_cert_path {
            Some(cert) => starts_with(cert, assets),
            None => false,
        },
        None => false,
    }
}

/// Whether `url` accepts a text as a URL.
pub uninterp spec fn url_parses(text: Seq<char>) -> bool;

/// `url::Url::parse`: whether it succeeds.
#[verifier::external_body]
fn parse_url(text: &str) -> (r: bool)
    ensures
        r == url_parses(text@),
{
    url::Url::parse(text).is_ok()
}

/// Whether a text is a URL.
pub fn is_url_valid(url: &str) -> (r: bool)
    ensures
        r == url_parses(url@),
{
    parse_url(url)
}

/// Why the owner and mode of a file are not changed.
#[derive(Debug, Clone, Copy, PartialEq, Eq, Structural)]
pub enum AccessError {
    /// The path is absolute or has two dots as a component, so it could leave the directory that it
    /// is to be relative to.
    InvalidPath,
}

/// Whether the owner and mode of a file may be changed by a path relative to an open directory: only
/// by one that stays within that directory.
pub fn secure_chown_chmod(relative_path: &str) -> (r: Result<(), AccessError>)
    ensures
        r == if valid_destination(relative_path@) {
            Ok::<(), AccessError>(())
        } else {
            Err::<(), AccessError>(AccessError::InvalidPath)
        },
{
    if is_destination_path_valid(relative_path) {
        Ok(())
    } else {
        Err(AccessError::InvalidPath)
    }
}

/// A valid destination leads to a place within whatever directory it is appended to; so does every
/// path by which the owner and mode of a file may be changed.
pub proof fn valid_destination_cannot_escape(base: Seq<char>, path: Seq<char>)
    requires
        valid_destination(path),
    ensures
        !is_absolute(path),
        place(base).len() <= place(joined(base, path)).len(),
        place(joined(base, path)).take(place(base).len() as int) == place(base),
{
    descending_path_stays_within(base, path);
}

/// A destination is refused for two reasons and no others: that it starts with a separator, and that
/// one of its pieces between separators is two dots.
pub proof fn destinations_are_refused_for_two_reasons(path: Seq<char>)
    ensures
        valid_destination(path) <==> !(path.len() > 0 && path[0] == '/') && forall|i: int|
            0 <= i < pieces(path, '/').len() ==> (#[trigger] pieces(path, '/')[i]) != ".."@,
{
}

} // verus!
