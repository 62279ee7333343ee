use vstd::prelude::*;

use axum::http::HeaderMap;

use crate::allowlist::Allowlist;
use crate::headers::{all_visible_ascii, ascii_chars, header_lookup, header_text};
use crate::resource_ref::ConfigMapRef;

verus! {

/// How a webhook request ended.
#[derive(Debug, Clone, PartialEq, Eq)]
pub enum Outcome {
    /// The annotation was written with this hash.
    Updated(String),
    /// The annotation already held this hash; nothing was written.
    AlreadyCurrent(String),
    /// The config map is not on the allowlist.
    Forbidden,
    /// The request carried no readable hash header.
    MissingHash,
    /// Reading or writing the config map failed, for the given cause.
    UpstreamFailure(String),
}

/// A merge patch of a config map's annotations, applied under a fixed field
/// manager name.
#[derive(Debug, Clone, PartialEq, Eq)]
pub struct MergePatch {
    pub annotations: Vec<(String, String)>,
    pub field_manager: String,
}

/// What the caller does next for a request.
#[derive(Debug, Clone, PartialEq, Eq)]
pub enum Step {
    /// Answer the request with this outcome.
    Reply(Outcome),
    /// Read the target's annotations, then call `on_annotations`.
    ReadAnnotations { target: ConfigMapRef, hash: String },
    /// Apply the patch to the target, then call `on_patch_applied`.
    ApplyPatch { target: ConfigMapRef, hash: String, patch: MergePatch },
}

/// The JSON body of a successful reply: `status` is always `"success"`.
#[derive(Debug, Clone, PartialEq, Eq)]
pub struct SuccessBody {
    pub status: String,
    pub git_hash: String,
    pub updated: bool,
}

/// The annotation that records the last hash written.
pub open spec fn hash_annotation() -> Seq<char> {
    "git-sync-hash"@
}

/// The field manager name under which patches are applied.
pub open spec fn field_manager() -> Seq<char> {
    "git-sync-webhook-adapter"@
}

/// The hash a request carries: the text of its `Gitsync-Hash` header (any
/// letter case), when present and visible ASCII.
pub open spec fn sync_hash(h: HeaderMap) -> Option<Seq<char>> {
    match header_lookup(h, "Gitsync-Hash"@) {
        Some(v) => if all_visible_ascii(v) {
            Some(ascii_chars(v))
        } else {
            None
        },
        None => None,
    }
}

pub open spec fn pairs_view(v: Seq<(String, String)>) -> Seq<(Seq<char>, Seq<char>)> {
    v.map_values(|p: (String, String)| (p.0@, p.1@))
}

/// The value of the first annotation named `key`.
pub open spec fn annotation_lookup(anns: Seq<(Seq<char>, Seq<char>)>, key: Seq<char>) -> Option<Seq<char>>
    decreases anns.len(),
{
    if anns.len() == 0 {
        None
    } else if anns[0].0 == key {
        Some(anns[0].1)
    } else {
        annotation_lookup(anns.drop_first(), key)
    }
}

/// Annotations after a merge patch that sets `key` to `value`: an annotation
/// of that name has its value replaced, otherwise one is added; nothing else
/// changes.
pub open spec fn merge_annotation(
    anns: Seq<(Seq<char>, Seq<char>)>,
    key: Seq<char>,
    value: Seq<char>,
) -> Seq<(Seq<char>, Seq<char>)>
    decreases anns.len(),
{
    if anns.len() == 0 {
        seq![(key, value)]
    } else if anns[0].0 == key {
        seq![(key, value)] + anns.drop_first()
    } else {
        seq![anns[0]] + merge_annotation(anns.drop_first(), key, value)
    }
}

/// A write is owed when the recorded hash is absent or differs from `hash`.
pub open spec fn needs_write(anns: Seq<(Seq<char>, Seq<char>)>, hash: Seq<char>) -> bool {
    annotation_lookup(anns, hash_annotation()) != Some(hash)
}

/// After the patch for `hash` has been merged into a config map, a second
/// delivery of the same hash owes no write.
pub proof fn lemma_redelivery_needs_no_write(anns: Seq<(Seq<char>, Seq<char>)>, hash: Seq<char>)
    ensures
        !needs_write(merge_annotation(anns, hash_annotation(), hash), hash),
    decreases anns.len(),
{
    let k = hash_annotation();
    let m = merge_annotation(anns, k, hash);
    if anns.len() == 0 {
    } else if anns[0].0 == k {
        assert(m[0] == (k, hash));
    } else {
        lemma_redelivery_needs_no_write(anns.drop_first(), hash);
        assert(m.drop_first() =~= merge_annotation(anns.drop_first(), k, hash));
    }
}

/// Merging the patch for `hash` leaves the annotations of every other name
/// as they were.
pub proof fn lemma_merge_keeps_other_annotations(
    anns: Seq<(Seq<char>, Seq<char>)>,
    hash: Seq<char>,
    other: Seq<char>,
)
    requires
        other != hash_annotation(),
    ensures
        annotation_lookup(merge_annotation(anns, hash_annotation(), hash), other)
            == annotation_lookup(anns, other),
    decreases anns.len(),
{
    let k = hash_annotation();
    let m = merge_annotation(anns, k, hash);
    if anns.len() == 0 {
        assert(m[0] == (k, hash));
        assert(annotation_lookup(m.drop_first(), other) is None);
    } else if anns[0].0 == k {
        assert(m[0] == (k, hash));
        assert(m.drop_first() =~= anns.drop_first());
    } else {
        lemma_merge_keeps_other_annotations(anns.drop_first(), hash, other);
        assert(m.drop_first() =~= merge_annotation(anns.drop_first(), k, hash));
    }
}

/// Whether the recorded hash among `anns` is exactly `hash`.
fn records_hash(anns: &Vec<(String, String)>, hash: &String) -> (r: bool)
    ensures
        r == !needs_write(pairs_view(anns@), hash@),
{
    let key = String::from_str("git-sync-hash");
    let ghost all = pairs_view(anns@);
    let mut i: usize = 0;
    assert(all.skip(0) =~= all);
    while i < anns.len()
        invariant
            all == pairs_view(anns@),
            key@ == hash_annotation(),
            i <= anns@.len(),
            annotation_lookup(all, key@) == annotation_lookup(all.skip(i as int), key@),
        decreases anns@.len() - i,
    {
        assert(all.skip(i as int)[0] == all[i as int]);
        assert(all.skip(i as int).drop_first() =~= all.skip(i + 1));
        if anns[i].0 == key {
            return anns[i].1 == *hash;
        }
        i = i + 1;
    }
    assert(all.skip(i as int).len() == 0);
    false
}

/// First step of a request for config map `namespace/name`. A config map off
/// the allowlist is refused before the headers are read or the store is
/// asked; then the hash header must be present and readable; then the
/// target's annotations are to be read.
pub fn start(allowlist: &Allowlist, namespace: String, name: String, headers: &HeaderMap) -> (r: Step)
    ensures
        !allowlist@.contains((namespace@, name@)) ==> r == Step::Reply(Outcome::Forbidden),
        allowlist@.contains((namespace@, name@)) ==> match sync_hash(*headers) {
            Some(h) => r matches Step::ReadAnnotations { target, hash }
                && target@ == (namespace@, name@) && hash@ == h,
            None => r == Step::Reply(Outcome::MissingHash),
        },
{
    let target = ConfigMapRef::new(namespace, name);
    if !allowlist.contains(&target) {
        return Step::Reply(Outcome::Forbidden);
    }
    match header_text(headers, "Gitsync-Hash") {
        Some(hash) => Step::ReadAnnotations { target, hash },
        None => Step::Reply(Outcome::MissingHash),
    }
}

/// Second step: given what reading the target's annotations gave. A failed
/// read ends the request without a write; an unchanged hash ends it without
/// a write; otherwise the one annotation is to be patched.
pub fn on_annotations(
    target: ConfigMapRef,
    hash: String,
    read: Result<Vec<(String, String)>, String>,
) -> (r: Step)
    ensures
        match read {
            Err(cause) => r == Step::Reply(Outcome::UpstreamFailure(cause)),
            Ok(anns) => if needs_write(pairs_view(anns@), hash@) {
                r matches Step::ApplyPatch { target: t, hash: h, patch }
                    && t == target && h == hash
                    && patch.annotations@.len() == 1
                    && patch.annotations@[0].0@ == hash_annotation()
                    && patch.annotations@[0].1@ == hash@
                    && patch.field_manager@ == field_manager()
            } else {
                r == Step::Reply(Outcome::AlreadyCurrent(hash))
            },
        },
{
    match read {
        Err(cause) => Step::Reply(Outcome::UpstreamFailure(cause)),
        Ok(anns) => {
            if records_hash(&anns, &hash) {
                Step::Reply(Outcome::AlreadyCurrent(hash))
            } else {
                let mut annotations: Vec<(String, String)> = Vec::new();
                annotations.push((String::from_str("git-sync-hash"), hash.clone()));
                let patch = MergePatch {
                    annotations,
                    field_manager: String::from_str("git-sync-webhook-adapter"),
                };
                Step::ApplyPatch { target, hash, patch }
            }
        },
    }
}

/// Last step: given what applying the patch gave.
pub fn on_patch_applied(hash: String, applied: Result<(), String>) -> (r: Outcome)
    ensures
        match applied {
            Ok(()) => r == Outcome::Updated(hash),
            Err(cause) => r == Outcome::UpstreamFailure(cause),
        },
{
    match applied {
        Ok(()) => Outcome::Updated(hash),
        Err(cause) => Outcome::UpstreamFailure(cause),
    }
}

impl Outcome {
    /// The HTTP status of the reply.
    pub fn status_code(&self) -> (r: u16)
        ensures
            r == match self {
                Outcome::Updated(_) | Outcome::AlreadyCurrent(_) => 200u16,
                Outcome::Forbidden => 403u16,
                Outcome::MissingHash => 400u16,
                Outcome::UpstreamFailure(_) => 500u16,
            },
    {
        match self {
            Outcome::Updated(_) | Outcome::AlreadyCurrent(_) => 200,
            Outcome::Forbidden => 403,
            Outcome::MissingHash => 400,
            Outcome::UpstreamFailure(_) => 500,
        }
    }

    /// The body of the reply: present on success only, and `updated` is true
    /// only when a write was made.
    pub fn success_body(&self) -> (r: Option<SuccessBody>)
        ensures
            match self {
                Outcome::Updated(h) => r matches Some(b) && b.status@ == "success"@
                    && b.git_hash@ == h@ && b.updated,
                Outcome::AlreadyCurrent(h) => r matches Some(b) && b.status@ == "success"@
                    && b.git_hash@ == h@ && !b.updated,
                _ => r is None,
            },
    {
        match self {
            Outcome::Updated(h) => Some(
                SuccessBody { status: String::from_str("success"), git_hash: h.clone(), updated: true },
            ),
            Outcome::AlreadyCurrent(h) => Some(
                SuccessBody { status: String::from_str("success"), git_hash: h.clone(), updated: false },
            ),
            _ => None,
        }
    }
}

} // verus!
