//! The backup rotator's decision: an existing backup directory is renamed to
//! a timestamp-suffixed sibling before a new mirror pass; a missing one needs
//! no rotation.

use vstd::prelude::*;
use vstd::string::*;
use crate::timestamp::{rotation_stamp, rotation_stamp_spec, Timestamp};

verus! {

/// The name an existing backup directory is rotated to: the canonical path,
/// a dash, and the rotation stamp.
pub open spec fn rotated_path_spec(base: Seq<char>, ts: Timestamp) -> Seq<char> {
    base + seq!['-'] + rotation_stamp_spec(ts)
}

/// Build the rotated name of the backup directory.
pub fn rotated_path(base: &str, ts: Timestamp) -> (r: String)
    requires
        ts.wf(),
    ensures
        r@ == rotated_path_spec(base@, ts),
{
    let mut out = String::from_str(base);
    out.append("-");
    let stamp = rotation_stamp(ts);
    out.append(stamp.as_str());
    proof {
        reveal_strlit("-");
        assert(out@ =~= rotated_path_spec(base@, ts));
    }
    out
}

/// The rotation decision: a backup directory that exists moves to its
/// rotated name; one that does not exist is left alone, and no new directory
/// is produced.
pub fn plan_rotation(backup_exists: bool, base: &str, ts: Timestamp) -> (r: Option<String>)
    requires
        ts.wf(),
    ensures
        backup_exists ==> r is Some && r->Some_0@ == rotated_path_spec(base@, ts),
        !backup_exists ==> r is None,
{
    if backup_exists {
        Some(rotated_path(base, ts))
    } else {
        None
    }
}

/// The rotated name never collides with the canonical backup path: it is
/// strictly longer.
pub proof fn lemma_rotated_name_differs(base: Seq<char>, ts: Timestamp)
    ensures
        rotated_path_spec(base, ts) != base,
        rotated_path_spec(base, ts).len() > base.len(),
{
    assert(rotation_stamp_spec(ts).len() >= 0);
    assert(rotated_path_spec(base, ts).len() >= base.len() + 1);
}

} // verus!
