//! What the resource client sends: the paths of the bridge's endpoints and
//! the bodies of scene commands. The transport is the caller's.
use vstd::prelude::*;
use crate::resource::{CommandScene, SceneRecall};

verus! {

/// How long one request may take, in seconds.
pub const REQUEST_TIMEOUT_SECS: u64 = 2;

/// The path where an application registers.
pub const REGISTRATION_PATH: &'static str = "/api";

/// The path of the live event feed.
pub const EVENT_STREAM_PATH: &'static str = "/eventstream/clip/v2";

/// The path under which resources live.
pub const RESOURCE_ROOT: &'static str = "/clip/v2/resource/";

/// The name of the header that carries the application key.
pub const APPLICATION_KEY_HEADER: &'static str = "hue-application-key";

/// The path of a collection of resources, such as `light` or `room`.
pub fn collection_path(kind: &str) -> (r: String)
    ensures
        r@ == RESOURCE_ROOT@ + kind@,
{
    let mut p = RESOURCE_ROOT.to_owned();
    p.append(kind);
    p
}

/// The path of one resource.
pub fn resource_path(kind: &str, id: &str) -> (r: String)
    ensures
        r@ == RESOURCE_ROOT@ + kind@ + "/"@ + id@,
{
    let mut p = collection_path(kind);
    p.append("/");
    p.append(id);
    p
}

/// The command that recalls a scene: `active` for a scene, `activate` for a
/// smart scene.
pub fn scene_command(smart: bool) -> (r: CommandScene)
    ensures
        r.recall.action@ == if smart {
            "activate"@
        } else {
            "active"@
        },
{
    let action = if smart {
        "activate"
    } else {
        "active"
    };
    CommandScene { recall: SceneRecall { action: action.to_owned() } }
}

} // verus!
