//! The repository: its location, and how a new version of an object is
//! planned.

use vstd::prelude::*;
use crate::config::{default_home, path_join_spec};
use crate::error::LatticeError;
use crate::model::object::{uuid_text, Object, Version, VersionID};
use crate::model::state::State;
use crate::model::tag::ActorID;
use crate::storage::chunks::ChunkManifest;

verus! {

/// The default repository root: `.latticefs` in the user's home directory.
pub fn default_repo_root() -> (r: String)
    ensures
        exists|h: Seq<char>| r@ == path_join_spec(h, ".latticefs"@),
{
    default_home()
}

/// The state a current version moves to when a new version is added on
/// top of it: a version under review is approved, a draft is discarded;
/// other states stay.
pub open spec fn superseded_state(s: State) -> Option<State> {
    match s {
        State::Review => Some(State::Approved),
        State::Draft => Some(State::Discarded),
        _ => None,
    }
}

/// A new version of an object from a stored manifest, on top of its
/// current version `current`. Versions are immutable: a sealed current
/// version refuses the new one (`ObjectSealed`). Otherwise the current
/// version is moved on (see `superseded_state`; `Some` of it when its
/// state changed), the new version is a draft whose parent is the current
/// one, and the object gains the new version as its current one.
pub fn plan_new_version(
    object: Object,
    current: Version,
    new_id: VersionID,
    manifest: &ChunkManifest,
    manifest_ref: [u8; 32],
    size: u64,
    actor: ActorID,
    message: Option<String>,
    created_at: i64,
) -> (r: Result<(Option<Version>, Version, Object), LatticeError>)
    ensures
        current.state == State::Sealed <==> r is Err,
        r matches Err(e) ==> e matches LatticeError::ObjectSealed { id } && id@ == uuid_text(object.id.0),
        r matches Ok((upd, v, o)) ==> {
            &&& match superseded_state(current.state) {
                Some(s) => upd == Some(Version { state: s, ..current }),
                None => upd is None,
            }
            &&& v.id == new_id
            &&& v.object_id == object.id
            &&& v.parent_version == Some(object.current_version)
            &&& v.chunk_root == manifest.merkle_root
            &&& v.manifest_ref == manifest_ref
            &&& v.created_at == created_at
            &&& v.created_by == actor
            &&& v.state == State::Draft
            &&& !v.encrypted
            &&& v.encryption_key_ref is None
            &&& v.size_bytes == size
            &&& v.chunk_count == manifest.chunks@.len() as u32
            &&& v.commit_message == message
            &&& o.versions@ == object.versions@.push(new_id)
            &&& o.current_version == new_id
            &&& o.tags@ == object.tags@
            &&& o.id == object.id
            &&& o.created_at == object.created_at
            &&& o.created_by == object.created_by
            &&& o.object_type == object.object_type
            &&& o.links@ == object.links@
            &&& o.policy_refs@ == object.policy_refs@
            &&& o.metadata_partition == object.metadata_partition
        },
{
    if current.state == State::Sealed {
        return Err(LatticeError::ObjectSealed { id: object.id.to_string() });
    }
    let mut cur = current;
    let upd = match cur.state {
        State::Review => {
            let _ = cur.transition_state(State::Approved);
            Some(cur)
        },
        State::Draft => {
            let _ = cur.transition_state(State::Discarded);
            Some(cur)
        },
        _ => None,
    };
    let parent = object.current_version;
    let version = Version {
        id: new_id,
        object_id: object.id,
        parent_version: Some(parent),
        chunk_root: manifest.merkle_root,
        manifest_ref,
        created_at,
        created_by: actor,
        state: State::Draft,
        encrypted: false,
        encryption_key_ref: None,
        size_bytes: size,
        chunk_count: manifest.chunks.len() as u32,
        commit_message: message,
    };
    let mut o = object;
    o.add_version(new_id);
    Ok((upd, version, o))
}

} // verus!
