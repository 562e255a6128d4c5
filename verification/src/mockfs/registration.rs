//! Which paths may be registered, and which may be mounted.
use vstd::prelude::*;

use crate::paths::{
    absolute, climbs, has_climb, is_absolute, law_rooted_path_is_its_segments,
    law_segments_are_the_named_pieces, lemma_segments_are_names, lemma_segments_of_rooted, path_of,
    pieces, rooted, segments, split,
};

verus! {

/// Why a path was refused.
#[derive(Debug)]
pub struct RegisterError {
    pub message: String,
}

/// The words that refuse a path.
pub open spec fn invalid_path_text(path: Seq<char>, reason: Seq<char>) -> Seq<char> {
    "invalid path '"@ + path + "': "@ + reason
}

impl RegisterError {
    /// Refuse a path.
    pub fn invalid_path(path: &str, reason: &str) -> (error: RegisterError)
        ensures
            error.message@ == invalid_path_text(path@, reason@),
    {
        RegisterError {
            message: "invalid path '".to_owned().concat(path).concat("': ").concat(reason),
        }
    }
}

/// What is wrong with a path to be registered, if anything.
pub open spec fn registration_fault(path: Seq<char>) -> Option<Seq<char>> {
    if !absolute(path) {
        Some("path must be absolute"@)
    } else if climbs(path) {
        Some("path may only contain normal segments"@)
    } else {
        None
    }
}

/// What is wrong with a path to be mounted, if anything.
pub open spec fn mount_fault(path: Seq<char>) -> Option<Seq<char>> {
    if registration_fault(path) is Some {
        registration_fault(path)
    } else if segments(path).len() == 0 {
        Some("refusing to mount the filesystem root"@)
    } else {
        None
    }
}

/// The one spelling of a path to be mounted.
pub open spec fn normalized(path: Seq<char>) -> Seq<char> {
    rooted(segments(path))
}

/// Check a path to be registered.
pub fn validate_registration_path(name: &str) -> (r: Result<(), RegisterError>)
    ensures
        r is Ok <==> registration_fault(name@) is None,
        r matches Err(error) ==> error.message@ == invalid_path_text(
            name@,
            registration_fault(name@)->0,
        ),
{
    if !is_absolute(name) {
        return Err(RegisterError::invalid_path(name, "path must be absolute"));
    }
    if has_climb(&split(name)) {
        return Err(RegisterError::invalid_path(name, "path may only contain normal segments"));
    }
    Ok(())
}

/// Bring a path to be mounted into its one spelling.
pub fn normalize_mount_path(path: &str) -> (r: Result<String, RegisterError>)
    ensures
        r is Ok <==> mount_fault(path@) is None,
        r matches Ok(spelling) ==> spelling@ == normalized(path@),
        r matches Err(error) ==> error.message@ == invalid_path_text(path@, mount_fault(path@)->0),
{
    if !is_absolute(path) {
        return Err(RegisterError::invalid_path(path, "path must be absolute"));
    }
    let list: Vec<String> = split(path);
    if has_climb(&list) {
        return Err(RegisterError::invalid_path(path, "path may only contain normal segments"));
    }
    if list.len() == 0 {
        return Err(RegisterError::invalid_path(path, "refusing to mount the filesystem root"));
    }
    Ok(path_of(&list))
}

/// A spelling is its own spelling: what normalising gives can be mounted, and
/// normalising it again changes nothing.
pub proof fn law_normalizing_is_idempotent(path: Seq<char>)
    requires
        mount_fault(path) is None,
    ensures
        mount_fault(normalized(path)) is None,
        segments(normalized(path)) == segments(path),
        normalized(normalized(path)) == normalized(path),
{
    lemma_segments_are_names(path);
    lemma_segments_of_rooted(segments(path));
}

/// Two paths have the same spelling exactly if they have the same segments.
pub proof fn law_spelling_tells_mounts_apart(one: Seq<char>, other: Seq<char>)
    ensures
        normalized(one) == normalized(other) <==> segments(one) == segments(other),
{
    lemma_segments_are_names(one);
    lemma_segments_are_names(other);
    lemma_segments_of_rooted(segments(one));
    lemma_segments_of_rooted(segments(other));
}

/// Which paths may be registered: those that start with a slash and have no piece of
/// two dots. A path that does not start with a slash is told so, whatever else holds.
pub proof fn law_which_paths_may_be_registered(path: Seq<char>)
    ensures
        registration_fault(path) is None <==> path.len() > 0 && path[0] == '/' && !pieces(
            path,
        ).contains(seq!['.', '.']),
        !(path.len() > 0 && path[0] == '/') ==> registration_fault(path) == Some(
            "path must be absolute"@,
        ),
        path.len() > 0 && path[0] == '/' && pieces(path).contains(seq!['.', '.'])
            ==> registration_fault(path) == Some("path may only contain normal segments"@),
{
    law_segments_are_the_named_pieces(path);
}

/// Which paths may be mounted: those that may be registered and name something below
/// the root. The spelling is a slash before each of the pieces that name something.
pub proof fn law_which_paths_may_be_mounted(path: Seq<char>)
    ensures
        ({
            let named = pieces(path).filter(
                |piece: Seq<char>| piece.len() > 0 && piece != seq!['.'],
            );
            &&& mount_fault(path) is None <==> registration_fault(path) is None && named.len() > 0
            &&& registration_fault(path) is Some ==> mount_fault(path) == registration_fault(path)
            &&& registration_fault(path) is None && named.len() == 0 ==> mount_fault(path) == Some(
                "refusing to mount the filesystem root"@,
            )
            &&& mount_fault(path) is None ==> pieces(normalized(path)) == seq![Seq::<char>::empty()]
                + named
        }),
{
    law_segments_are_the_named_pieces(path);
    lemma_segments_are_names(path);
    if segments(path).len() > 0 {
        law_rooted_path_is_its_segments(segments(path));
    }
}

} // verus!
