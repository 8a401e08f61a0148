//! The atomic publish protocol, stated over an abstract filesystem.
//!
//! Every save operation writes the encoded bytes to a uniquely named scratch
//! path in the target's directory and only then renames the scratch path onto
//! the target. The facts proved here are what that ordering buys: interruption
//! or failure at any point before the rename leaves the target's prior
//! content, or its absence, exactly as it was, and a completed rename installs
//! the full encoded content in one step.

use vstd::prelude::*;

verus! {

/// An abstract filesystem: each existing path maps to its full contents.
pub type FsView = Map<Seq<char>, Seq<u8>>;

/// The filesystem states a save can produce before its publish step:
/// untouched (nothing opened yet, or the open itself failed), or with the
/// scratch file created, truncated, and holding any prefix of the encoded
/// bytes — including all of them, just before the rename.
pub open spec fn pre_publish_state(
    fs0: FsView,
    fs1: FsView,
    scratch: Seq<char>,
    content: Seq<u8>,
) -> bool {
    fs1 == fs0 || exists|k: int|
        0 <= k <= content.len() && fs1 == fs0.insert(scratch, content.take(k))
}

/// The filesystem after the publish step: the fully written scratch file
/// renamed onto the target, replacing whatever the target held.
pub open spec fn published_state(
    fs0: FsView,
    scratch: Seq<char>,
    target: Seq<char>,
    content: Seq<u8>,
) -> FsView {
    fs0.insert(scratch, content).remove(scratch).insert(target, content)
}

/// Atomicity of the save protocol: if the process stops at any point before
/// the rename — a crash, a codec failure, a filesystem failure — the target
/// path's prior content (or absence) is unchanged. In particular the target
/// never holds a truncated version of the new content: every partial write
/// lands on the scratch path alone.
pub proof fn lemma_interrupted_save_preserves_target(
    fs0: FsView,
    fs1: FsView,
    scratch: Seq<char>,
    target: Seq<char>,
    content: Seq<u8>,
)
    requires
        scratch != target,
        pre_publish_state(fs0, fs1, scratch, content),
    ensures
        fs1.contains_key(target) == fs0.contains_key(target),
        fs1.contains_key(target) ==> fs1[target] == fs0[target],
{
    if fs1 != fs0 {
        let k = choose|k: int|
            0 <= k <= content.len() && fs1 == fs0.insert(scratch, content.take(k));
        assert(fs1 == fs0.insert(scratch, content.take(k)));
    }
}

/// No partial file at the target: whatever a failed or interrupted save
/// leaves at the target path — even bytes that happen to look like a prefix
/// of the new content — was already there before the save began.
pub proof fn lemma_failed_save_leaves_no_new_content(
    fs0: FsView,
    fs1: FsView,
    scratch: Seq<char>,
    target: Seq<char>,
    content: Seq<u8>,
)
    requires
        scratch != target,
        pre_publish_state(fs0, fs1, scratch, content),
        fs1.contains_key(target),
    ensures
        fs0.contains_key(target),
        fs0[target] == fs1[target],
{
    lemma_interrupted_save_preserves_target(fs0, fs1, scratch, target, content);
}

/// The publish step installs the complete encoded content at the target in
/// one indivisible rename, and touches no path other than the scratch and
/// the target.
pub proof fn lemma_publish_installs_content(
    fs0: FsView,
    scratch: Seq<char>,
    target: Seq<char>,
    content: Seq<u8>,
)
    requires
        scratch != target,
    ensures
        published_state(fs0, scratch, target, content).contains_key(target),
        published_state(fs0, scratch, target, content)[target] == content,
        forall|p: Seq<char>|
            p != target && p != scratch ==> published_state(
                fs0,
                scratch,
                target,
                content,
            ).contains_key(p) == fs0.contains_key(p),
        forall|p: Seq<char>|
            p != target && p != scratch && fs0.contains_key(p) ==> published_state(
                fs0,
                scratch,
                target,
                content,
            )[p] == fs0[p],
{
}

/// Concurrent saves to one target never interleave: whichever rename runs
/// last determines the target's content, and it is that save's complete
/// output.
pub proof fn lemma_last_publish_wins(
    fs0: FsView,
    scratch_a: Seq<char>,
    scratch_b: Seq<char>,
    target: Seq<char>,
    content_a: Seq<u8>,
    content_b: Seq<u8>,
)
    requires
        scratch_a != target,
        scratch_b != target,
    ensures
        published_state(
            published_state(fs0, scratch_a, target, content_a),
            scratch_b,
            target,
            content_b,
        )[target] == content_b,
{
}

} // verus!
