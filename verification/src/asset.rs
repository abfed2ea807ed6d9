//! The asset resolver: decides whether a raw, percent-encoded sub-path may
//! be served, which file it names, and under which content type.
//!
//! Resolution is split in two so that no file is ever read for a rejected
//! request: [`resolve_request`] turns the raw sub-path into a plan (or a
//! rejection) without any I/O, and [`apply_read`] turns the outcome of the
//! single file read the plan calls for into the final asset or error.

use vstd::prelude::*;
use vstd::string::StringExecFns;
use crate::text::chars_of;
use crate::text::subvec;
use crate::text::vec_eq_str;

verus! {

/// Why a request for an asset was refused. Every variant surfaces as an
/// HTTP 404; they differ only in their message text.
#[derive(Clone, Copy, PartialEq, Eq, Structural, Debug)]
pub enum AssetError {
    /// The decoded path's first segment is not the allowed prefix.
    PolicyRejected,
    /// The decoded path holds a parent-directory component.
    TraversalRejected,
    /// The planned file was absent or unreadable.
    NotFoundOnDisk,
}

/// A request that passed the policy check: the file to read and the content type
/// the response will carry.
#[derive(Debug)]
pub struct AssetPlan {
    pub fs_path: String,
    pub content_type: String,
}

/// A successfully served asset: the file's bytes and their content type.
#[derive(Debug)]
pub struct ResolvedAsset {
    pub bytes: Vec<u8>,
    pub content_type: String,
}

/// The characters that percent-decoding with lossy UTF-8 decoding yields
/// for `s`: every `%` followed by two hex digits becomes that byte, and the
/// resulting bytes are read back as UTF-8 with invalid sequences replaced.
pub uninterp spec fn decoded_view(s: Seq<char>) -> Seq<char>;

/// The characters of `p` before its first `/`; all of `p` if it has none.
pub open spec fn first_segment(p: Seq<char>) -> Seq<char>
    decreases p.len(),
{
    if p.len() == 0 || p[0] == '/' {
        Seq::empty()
    } else {
        seq![p[0]] + first_segment(p.drop_first())
    }
}

/// The policy gate: only paths whose first decoded segment is `images`
/// may ever reach the file tree.
pub open spec fn passes_policy(p: Seq<char>) -> bool {
    first_segment(p) == "images"@
}

/// `p` has a `..` component whose characters start at index `i`.
pub open spec fn dotdot_at(p: Seq<char>, i: int) -> bool {
    &&& 0 <= i
    &&& i + 2 <= p.len()
    &&& p[i] == '.'
    &&& p[i + 1] == '.'
    &&& (i == 0 || p[i - 1] == '/')
    &&& (i + 2 == p.len() || p[i + 2] == '/')
}

/// `p` has a parent-directory (`..`) component.
pub open spec fn has_dotdot(p: Seq<char>) -> bool {
    exists|i: int| dotdot_at(p, i)
}

/// The directory under which servable files live, as a path prefix.
pub open spec fn asset_root() -> Seq<char> {
    "static/"@
}

/// What becomes of a decoded sub-path: the file path to read, or the
/// rejection. The policy gate is checked before containment, and neither
/// depends on anything but the decoded characters.
pub open spec fn classified(decoded: Seq<char>) -> Result<Seq<char>, AssetError> {
    if !passes_policy(decoded) {
        Err(AssetError::PolicyRejected)
    } else if has_dotdot(decoded) {
        Err(AssetError::TraversalRejected)
    } else {
        Ok(asset_root() + decoded)
    }
}

proof fn lemma_first_segment_at(p: Seq<char>, k: int)
    requires
        0 <= k <= p.len(),
        k == p.len() || p[k] == '/',
        forall|j: int| 0 <= j < k ==> p[j] != '/',
    ensures
        first_segment(p) == p.subrange(0, k),
    decreases p.len(),
{
    if p.len() == 0 {
        assert(first_segment(p) =~= p.subrange(0, 0));
    } else if p[0] == '/' {
        assert(k == 0);
        assert(first_segment(p) =~= p.subrange(0, 0));
    } else {
        assert(k >= 1);
        lemma_first_segment_at(p.drop_first(), k - 1);
        assert(seq![p[0]] + p.drop_first().subrange(0, k - 1) =~= p.subrange(0, k));
    }
}

/// The index of the first `/` in `d`, or its length if it has none.
fn first_slash_or_len(d: &Vec<char>) -> (k: usize)
    ensures
        k <= d@.len(),
        k == d@.len() || d@[k as int] == '/',
        forall|j: int| 0 <= j < k ==> d@[j] != '/',
{
    let n = d.len();
    let mut i: usize = 0;
    while i < n
        invariant
            i <= n,
            n == d@.len(),
            forall|j: int| 0 <= j < i ==> d@[j] != '/',
        decreases n - i,
    {
        if d[i] == '/' {
            return i;
        }
        i = i + 1;
    }
    n
}

/// Whether `d` holds a `..` component.
fn find_dotdot(d: &Vec<char>) -> (r: bool)
    ensures
        r == has_dotdot(d@),
{
    let n = d.len();
    if n < 2 {
        assert(!has_dotdot(d@)) by {
            assert forall|i: int| !dotdot_at(d@, i) by {}
        }
        return false;
    }
    let mut i: usize = 0;
    while i <= n - 2
        invariant
            2 <= n,
            n == d@.len(),
            i <= n,
            forall|j: int| 0 <= j < i ==> !dotdot_at(d@, j),
        decreases n - i,
    {
        if d[i] == '.' && d[i + 1] == '.'
            && (i == 0 || d[i - 1] == '/')
            && (i + 2 == n || d[i + 2] == '/') {
            assert(dotdot_at(d@, i as int));
            return true;
        }
        assert(!dotdot_at(d@, i as int));
        i = i + 1;
    }
    assert(!has_dotdot(d@)) by {
        assert forall|j: int| !dotdot_at(d@, j) by {
            if 0 <= j < i {
                assert(!dotdot_at(d@, j));
            }
        }
    }
    false
}

/// The characters of `p` after its last `/`; all of `p` if it has none.
pub open spec fn file_name(p: Seq<char>) -> Seq<char>
    decreases p.len(),
{
    if p.len() == 0 {
        p
    } else if p[p.len() - 1] == '/' {
        Seq::empty()
    } else {
        file_name(p.drop_last()).push(p[p.len() - 1])
    }
}

/// The extension of a file name: the characters after its last `.`, which
/// must not be the name's first character; `None` if it has no such dot.
pub open spec fn name_extension(name: Seq<char>) -> Option<Seq<char>>
    decreases name.len(),
{
    if name.len() == 0 {
        None
    } else if name[name.len() - 1] == '.' {
        if name.len() >= 2 {
            Some(Seq::empty())
        } else {
            None
        }
    } else {
        match name_extension(name.drop_last()) {
            Some(e) => Some(e.push(name[name.len() - 1])),
            None => None,
        }
    }
}

/// The extension of the file a path names, if any.
pub open spec fn extension_of(p: Seq<char>) -> Option<Seq<char>> {
    name_extension(file_name(p))
}

/// The static extension-to-MIME table; everything unknown is served as an
/// opaque byte stream.
pub open spec fn content_type_for(ext: Option<Seq<char>>) -> Seq<char> {
    match ext {
        Some(e) => if e == "png"@ {
            "image/png"@
        } else if e == "jpg"@ || e == "jpeg"@ {
            "image/jpeg"@
        } else if e == "gif"@ {
            "image/gif"@
        } else if e == "svg"@ {
            "image/svg+xml"@
        } else if e == "html"@ {
            "text/html; charset=utf-8"@
        } else if e == "css"@ {
            "text/css"@
        } else if e == "js"@ {
            "application/javascript"@
        } else {
            "application/octet-stream"@
        },
        None => "application/octet-stream"@,
    }
}

/// The content type a request is served under: a pure function of the raw
/// request path's extension, never of the bytes served.
pub open spec fn mime_of(p: Seq<char>) -> Seq<char> {
    content_type_for(extension_of(p))
}

proof fn lemma_file_name_at(p: Seq<char>, k: int)
    requires
        0 <= k <= p.len(),
        k == 0 || p[k - 1] == '/',
        forall|j: int| k <= j < p.len() ==> p[j] != '/',
    ensures
        file_name(p) == p.subrange(k, p.len() as int),
    decreases p.len(),
{
    if p.len() == 0 {
        assert(file_name(p) =~= p.subrange(0, 0));
    } else if p[p.len() - 1] == '/' {
        assert(k == p.len());
        assert(file_name(p) =~= p.subrange(k, p.len() as int));
    } else {
        assert(k < p.len());
        lemma_file_name_at(p.drop_last(), k);
        assert(p.drop_last().subrange(k, p.len() - 1).push(p[p.len() - 1])
            =~= p.subrange(k, p.len() as int));
    }
}

proof fn lemma_name_extension_none(name: Seq<char>)
    requires
        forall|j: int| 1 <= j < name.len() ==> name[j] != '.',
    ensures
        name_extension(name) is None,
    decreases name.len(),
{
    if name.len() == 0 {
    } else if name[name.len() - 1] == '.' {
        assert(name.len() == 1);
    } else {
        lemma_name_extension_none(name.drop_last());
    }
}

proof fn lemma_name_extension_at(name: Seq<char>, d: int)
    requires
        1 <= d < name.len(),
        name[d] == '.',
        forall|j: int| d < j < name.len() ==> name[j] != '.',
    ensures
        name_extension(name) == Some(name.subrange(d + 1, name.len() as int)),
    decreases name.len(),
{
    if d == name.len() - 1 {
        assert(name.subrange(d + 1, name.len() as int) =~= Seq::<char>::empty());
    } else {
        lemma_name_extension_at(name.drop_last(), d);
        assert(name.drop_last().subrange(d + 1, name.len() - 1).push(name[name.len() - 1])
            =~= name.subrange(d + 1, name.len() as int));
    }
}

/// The index right after the last `/` in `d`; 0 if it has none.
fn name_start(d: &Vec<char>) -> (k: usize)
    ensures
        k <= d@.len(),
        k == 0 || d@[k - 1] == '/',
        forall|j: int| k <= j < d@.len() ==> d@[j] != '/',
{
    let mut i: usize = d.len();
    while i > 0
        invariant
            i <= d@.len(),
            forall|j: int| i <= j < d@.len() ==> d@[j] != '/',
        decreases i,
    {
        if d[i - 1] == '/' {
            return i;
        }
        i = i - 1;
    }
    0
}

/// The index of the last `.` at or after `from` in `d`, if any.
fn last_dot_from(d: &Vec<char>, from: usize) -> (r: Option<usize>)
    requires
        from <= d@.len(),
    ensures
        match r {
            Some(j) => from <= j < d@.len() && d@[j as int] == '.'
                && forall|t: int| j < t < d@.len() ==> d@[t] != '.',
            None => forall|t: int| from <= t < d@.len() ==> d@[t] != '.',
        },
{
    let mut i: usize = d.len();
    while i > from
        invariant
            from <= i <= d@.len(),
            forall|t: int| i <= t < d@.len() ==> d@[t] != '.',
        decreases i,
    {
        if d[i - 1] == '.' {
            return Some(i - 1);
        }
        i = i - 1;
    }
    None
}

/// The content type for a known extension's characters.
fn mime_for_ext(e: &Vec<char>) -> (r: String)
    ensures
        r@ == content_type_for(Some(e@)),
{
    let name: &str = if vec_eq_str(e, "png") {
        "image/png"
    } else if vec_eq_str(e, "jpg") || vec_eq_str(e, "jpeg") {
        "image/jpeg"
    } else if vec_eq_str(e, "gif") {
        "image/gif"
    } else if vec_eq_str(e, "svg") {
        "image/svg+xml"
    } else if vec_eq_str(e, "html") {
        "text/html; charset=utf-8"
    } else if vec_eq_str(e, "css") {
        "text/css"
    } else if vec_eq_str(e, "js") {
        "application/javascript"
    } else {
        "application/octet-stream"
    };
    String::from_str(name)
}

/// The content type the request `raw` is served under, derived from the
/// raw path's file extension alone.
pub fn content_type_of(raw: &str) -> (r: String)
    ensures
        r@ == mime_of(raw@),
{
    let d = chars_of(raw);
    let n = d.len();
    let ns = name_start(&d);
    proof {
        lemma_file_name_at(raw@, ns as int);
    }
    let ld = last_dot_from(&d, ns);
    match ld {
        Some(j) => {
            if j > ns {
                proof {
                    let name = raw@.subrange(ns as int, n as int);
                    assert(name[j - ns] == '.');
                    assert forall|t: int| j - ns < t < name.len() implies name[t] != '.' by {
                        assert(name[t] == raw@[ns + t]);
                    }
                    lemma_name_extension_at(name, j - ns);
                    assert(name.subrange(j - ns + 1, name.len() as int)
                        =~= raw@.subrange(j + 1, n as int));
                }
                let ext = subvec(&d, j + 1, n);
                mime_for_ext(&ext)
            } else {
                proof {
                    let name = raw@.subrange(ns as int, n as int);
                    assert forall|t: int| 1 <= t < name.len() implies name[t] != '.' by {
                        assert(name[t] == raw@[ns + t]);
                    }
                    lemma_name_extension_none(name);
                }
                String::from_str("application/octet-stream")
            }
        },
        None => {
            proof {
                let name = raw@.subrange(ns as int, n as int);
                assert forall|t: int| 1 <= t < name.len() implies name[t] != '.' by {
                    assert(name[t] == raw@[ns + t]);
                }
                lemma_name_extension_none(name);
            }
            String::from_str("application/octet-stream")
        },
    }
}

/// Relies on `percent_encoding::percent_decode_str` and
/// `PercentDecode::decode_utf8_lossy`: every `%` followed by two hex digits
/// becomes that byte, other bytes pass through, and the bytes are read back
/// as UTF-8 with invalid sequences replaced, never failing. The result is a
/// function of the input characters alone, and an input with no `%` comes
/// back unchanged.
#[verifier::external_body]
fn percent_decode_lossy(s: &str) -> (r: String)
    ensures
        r@ == decoded_view(s@),
        (forall|i: int| 0 <= i < s@.len() ==> s@[i] != '%') ==> r@ == s@,
{
    percent_encoding::percent_decode_str(s).decode_utf8_lossy().into_owned()
}

/// The policy and containment checks on an already decoded sub-path: the
/// file path to read on success, the rejection otherwise.
pub fn classify_decoded(decoded: &str) -> (r: Result<String, AssetError>)
    ensures
        match r {
            Ok(path) => classified(decoded@) == Ok::<Seq<char>, AssetError>(path@),
            Err(e) => classified(decoded@) == Err::<Seq<char>, AssetError>(e),
        },
{
    let d = chars_of(decoded);
    let k = first_slash_or_len(&d);
    proof {
        lemma_first_segment_at(decoded@, k as int);
    }
    let seg = subvec(&d, 0, k);
    if !vec_eq_str(&seg, "images") {
        return Err(AssetError::PolicyRejected);
    }
    if find_dotdot(&d) {
        return Err(AssetError::TraversalRejected);
    }
    let path = String::from_str("static/").concat(decoded);
    Ok(path)
}

/// Decode the raw sub-path and decide, with no I/O, whether and what to
/// serve: the plan names the one file to read and the content type the
/// response will carry; a rejection is final and independent of the file
/// tree.
pub fn resolve_request(raw: &str) -> (r: Result<AssetPlan, AssetError>)
    ensures
        match r {
            Ok(plan) => classified(decoded_view(raw@)) == Ok::<Seq<char>, AssetError>(plan.fs_path@)
                && plan.content_type@ == mime_of(raw@),
            Err(e) => classified(decoded_view(raw@)) == Err::<Seq<char>, AssetError>(e),
        },
{
    let decoded = percent_decode_lossy(raw);
    match classify_decoded(decoded.as_str()) {
        Ok(path) => Ok(AssetPlan { fs_path: path, content_type: content_type_of(raw) }),
        Err(e) => Err(e),
    }
}

/// Turn the outcome of the plan's single file read into the final result:
/// the bytes under the planned content type, or `NotFoundOnDisk` when the
/// read failed for any reason.
pub fn apply_read(plan: AssetPlan, data: Option<Vec<u8>>) -> (r: Result<ResolvedAsset, AssetError>)
    ensures
        match data {
            Some(bytes) => (r matches Ok(a) && a.bytes@ == bytes@
                && a.content_type@ == plan.content_type@),
            None => r == Err::<ResolvedAsset, AssetError>(AssetError::NotFoundOnDisk),
        },
{
    match data {
        Some(bytes) => Ok(ResolvedAsset { bytes, content_type: plan.content_type }),
        None => Err(AssetError::NotFoundOnDisk),
    }
}

/// The view of a read outcome: the bytes of the planned file, or `None`
/// when it was absent or unreadable.
pub open spec fn data_view(data: Option<Vec<u8>>) -> Option<Seq<u8>> {
    match data {
        Some(bytes) => Some(bytes@),
        None => None,
    }
}

/// What resolving `raw` returns when the planned file holds `data`: the
/// served bytes and content type, or the error. A rejection by the policy check or
/// the containment check is the same whatever `data` is.
pub open spec fn resolve_spec(raw: Seq<char>, data: Option<Seq<u8>>) -> Result<
    (Seq<u8>, Seq<char>),
    AssetError,
> {
    match classified(decoded_view(raw)) {
        Err(e) => Err(e),
        Ok(path) => match data {
            Some(bytes) => Ok((bytes, mime_of(raw))),
            None => Err(AssetError::NotFoundOnDisk),
        },
    }
}

/// Resolve `raw` against a read outcome in one call: the pure composition
/// of [`resolve_request`] and [`apply_read`], for callers that already hold
/// the file's bytes.
pub fn resolve(raw: &str, data: Option<Vec<u8>>) -> (r: Result<ResolvedAsset, AssetError>)
    ensures
        match r {
            Ok(a) => resolve_spec(raw@, data_view(data)) == Ok::<(Seq<u8>, Seq<char>), AssetError>(
                (a.bytes@, a.content_type@),
            ),
            Err(e) => resolve_spec(raw@, data_view(data)) == Err::<(Seq<u8>, Seq<char>), AssetError>(e),
        },
{
    match resolve_request(raw) {
        Ok(plan) => apply_read(plan, data),
        Err(e) => Err(e),
    }
}

impl AssetError {
    /// The short plain-text body each rejection is served with. Policy and
    /// traversal rejections are indistinguishable from a plain miss of the
    /// route; only a missing file names a file.
    pub fn message(&self) -> (r: String)
        ensures
            *self == AssetError::NotFoundOnDisk ==> r@ == "File not found"@,
            *self != AssetError::NotFoundOnDisk ==> r@ == "Not Found"@,
    {
        match self {
            AssetError::NotFoundOnDisk => String::from_str("File not found"),
            _ => String::from_str("Not Found"),
        }
    }

    /// The HTTP status every rejection surfaces as.
    pub fn status(&self) -> (r: u16)
        ensures
            r == 404,
    {
        404
    }
}

/// The planned path lies under the asset root and holds no
/// parent-directory component.
pub open spec fn within_root(path: Seq<char>) -> bool {
    &&& asset_root().is_prefix_of(path)
    &&& !has_dotdot(path.skip(asset_root().len() as int))
}

/// Policy gate: a raw sub-path whose decoded first segment is not `images`
/// resolves to `PolicyRejected` whatever the file tree holds, so its
/// rejection needs no filesystem read and is observable even when a
/// matching file exists.
pub proof fn lemma_policy_gate(raw: Seq<char>, data: Option<Seq<u8>>)
    requires
        first_segment(decoded_view(raw)) != "images"@,
    ensures
        resolve_spec(raw, data) == Err::<(Seq<u8>, Seq<char>), AssetError>(
            AssetError::PolicyRejected,
        ),
{
}

/// Traversal hardening: a decoded sub-path holding a `..` component is
/// rejected whatever the file tree holds — as a traversal rejection when it
/// got past the policy check, as a policy rejection otherwise.
pub proof fn lemma_traversal_rejected(raw: Seq<char>, data: Option<Seq<u8>>)
    requires
        has_dotdot(decoded_view(raw)),
    ensures
        resolve_spec(raw, data) is Err,
        passes_policy(decoded_view(raw)) ==> resolve_spec(raw, data) == Err::<
            (Seq<u8>, Seq<char>),
            AssetError,
        >(AssetError::TraversalRejected),
        !passes_policy(decoded_view(raw)) ==> resolve_spec(raw, data) == Err::<
            (Seq<u8>, Seq<char>),
            AssetError,
        >(AssetError::PolicyRejected),
{
}

/// Containment: whenever classification yields a path to open, that path
/// is a descendant of the asset root.
pub proof fn lemma_containment(decoded: Seq<char>, path: Seq<char>)
    requires
        classified(decoded) == Ok::<Seq<char>, AssetError>(path),
    ensures
        within_root(path),
{
    reveal_strlit("static/");
    assert(path =~= asset_root() + decoded);
    assert(asset_root().is_prefix_of(path)) by {
        assert(path.subrange(0, asset_root().len() as int) =~= asset_root());
    }
    assert(path.skip(asset_root().len() as int) =~= decoded);
}

/// Idempotence: resolution is a pure function of the raw sub-path and the
/// stored bytes, so two consecutive resolutions of the same existing path
/// return byte-identical content and the same content type.
pub proof fn lemma_resolve_deterministic(
    raw: Seq<char>,
    data: Option<Seq<u8>>,
    r1: Result<(Seq<u8>, Seq<char>), AssetError>,
    r2: Result<(Seq<u8>, Seq<char>), AssetError>,
)
    requires
        r1 == resolve_spec(raw, data),
        r2 == resolve_spec(raw, data),
    ensures
        r1 == r2,
{
}

} // verus!
