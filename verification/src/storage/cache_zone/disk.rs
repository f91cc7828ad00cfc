//! A directory on a disk as a cache zone.
use vstd::prelude::*;
use vstd::string::*;
use super::CacheState;
use crate::paths::{is_under, join_path};
use crate::text::same_text;

verus! {

/// A mounted file system.
pub struct Mount {
    /// Where it is mounted.
    pub point: String,
    /// The bytes that are free.
    pub available: u64,
    /// The bytes of the whole.
    pub total: u64,
}

/// The sizes of a file system.
#[derive(Clone, Copy, PartialEq, Eq, Structural, Debug)]
pub struct Sizes {
    /// The bytes that are free.
    pub available: usize,
    /// The bytes of the whole.
    pub total: usize,
}

/// The sizes of a mounted file system.
pub open spec fn sizes_of(mount: Mount) -> Sizes {
    Sizes { available: mount.available as usize, total: mount.total as usize }
}

/// The sizes of the file system that `path` is on: the first whose mount point it lies under. Where
/// there is none, those of the root that was listed last, or else `otherwise`.
pub open spec fn disk_sizes(mounts: Seq<Mount>, path: Seq<char>, otherwise: Sizes) -> Sizes
    decreases mounts.len(),
{
    if mounts.len() == 0 {
        otherwise
    } else if crate::paths::lies_under(path, mounts[0].point@) {
        sizes_of(mounts[0])
    } else if mounts[0].point@ == "/"@ {
        disk_sizes(mounts.drop_first(), path, sizes_of(mounts[0]))
    } else {
        disk_sizes(mounts.drop_first(), path, otherwise)
    }
}

/// What is known of nothing.
pub open spec fn no_sizes() -> Sizes {
    Sizes { available: 0, total: 0 }
}

/// A directory on a disk as a cache zone.
pub struct CommonDisk {
    /// Whether objects may be stored and read.
    pub available: bool,
    /// The directory.
    pub parent_dir: String,
    /// The size that is still available, as the objects that were stored and removed leave it. It is
    /// negative where more was stored than there was room for.
    pub account: i128,
    /// The size of the whole disk.
    pub total_size: usize,
    /// How often the disk failed.
    pub error_count: usize,
}

/// The available size that is told of an account: none where the account is negative, and at most the
/// largest number there is.
pub open spec fn told_size(account: i128) -> usize {
    if account < 0 {
        0
    } else if account > usize::MAX {
        usize::MAX
    } else {
        account as usize
    }
}

/// A zone in which an object of `fsize` bytes was stored. The account wraps round at the ends of its
/// range.
pub open spec fn after_store(disk: CommonDisk, fsize: u64) -> CommonDisk {
    CommonDisk { account: disk.account.wrapping_sub(fsize as i128), ..disk }
}

/// A zone from which an object of `fsize` bytes was removed. The account wraps round at the ends of
/// its range.
pub open spec fn after_remove(disk: CommonDisk, fsize: u64) -> CommonDisk {
    CommonDisk { account: disk.account.wrapping_add(fsize as i128), ..disk }
}

/// A zone that is taken out of use where the share of it that is used has reached the water level.
pub open spec fn after_level_reached(disk: CommonDisk, reached: bool) -> CommonDisk {
    CommonDisk { available: disk.available && !reached, ..disk }
}

/// A zone that is put in use where the share of it that is used is below the water level.
pub open spec fn after_level_left(disk: CommonDisk, below: bool) -> CommonDisk {
    CommonDisk { available: disk.available || below, ..disk }
}

impl CommonDisk {
    /// Opens a directory, given what is mounted.
    pub fn open(path: &str, mounts: &Vec<Mount>) -> (disk: CommonDisk)
        ensures
            disk.available,
            disk.parent_dir@ == path@,
            disk.error_count == 0,
            disk.account == disk_sizes(mounts@, path@, no_sizes()).available,
            disk.total_size == disk_sizes(mounts@, path@, no_sizes()).total,
    {
        let mut root: Sizes = Sizes { available: 0, total: 0 };
        let mut i: usize = 0;
        proof {
            assert(mounts@.skip(0) =~= mounts@);
        }
        while i < mounts.len()
            invariant
                i <= mounts.len(),
                disk_sizes(mounts@, path@, no_sizes()) == disk_sizes(
                    mounts@.skip(i as int),
                    path@,
                    root,
                ),
            decreases mounts.len() - i,
        {
            let mount: &Mount = &mounts[i];
            let here: Sizes = Sizes {
                available: mount.available as usize,
                total: mount.total as usize,
            };
            proof {
                assert(mounts@.skip(i as int)[0] == mounts@[i as int]);
                assert(mounts@.skip(i as int).drop_first() =~= mounts@.skip(i + 1));
            }
            if is_under(path, mount.point.as_str()) {
                return CommonDisk {
                    available: true,
                    parent_dir: path.to_owned(),
                    account: here.available as i128,
                    total_size: here.total,
                    error_count: 0,
                };
            } else if same_text(mount.point.as_str(), "/") {
                root = here;
            }
            i += 1;
        }
        CommonDisk {
            available: true,
            parent_dir: path.to_owned(),
            account: root.available as i128,
            total_size: root.total,
            error_count: 0,
        }
    }

    /// Whether the zone can be used.
    pub fn is_ok(&self) -> (yes: bool)
        ensures
            yes == self.available,
    {
        self.available
    }

    /// The state of the zone.
    pub fn state(&self) -> (state: CacheState)
        ensures
            state == (CacheState {
                avaiable_size: told_size(self.account),
                total_size: self.total_size,
                error_count: self.error_count,
            }),
    {
        let avaiable_size: usize = if self.account < 0 {
            0
        } else if self.account > usize::MAX as i128 {
            usize::MAX
        } else {
            self.account as usize
        };
        CacheState {
            avaiable_size,
            total_size: self.total_size,
            error_count: self.error_count,
        }
    }

    /// Where the object with that name is stored.
    pub fn get_object_path(&self, path: &str) -> (place: String)
        ensures
            place@ == crate::paths::joined_path(self.parent_dir@, path@),
    {
        join_path(self.parent_dir.as_str(), path)
    }

    /// Accounts for an object of `fsize` bytes that was stored. The result is the account.
    pub fn account_stored(&mut self, fsize: u64) -> (left: i128)
        ensures
            *final(self) == after_store(*old(self), fsize),
            old(self).account - fsize >= i128::MIN ==> final(self).account == old(self).account - fsize,
            left == final(self).account,
    {
        self.account = self.account.wrapping_sub(fsize as i128);
        self.account
    }

    /// Takes the zone out of use where the share of it that is used has reached the water level.
    pub fn note_level_reached(&mut self, reached: bool)
        ensures
            *final(self) == after_level_reached(*old(self), reached),
    {
        if reached {
            self.available = false;
        }
    }

    /// Accounts for an object of `fsize` bytes that was removed. The result is the account.
    pub fn account_removed(&mut self, fsize: u64) -> (left: i128)
        ensures
            *final(self) == after_remove(*old(self), fsize),
            old(self).account + fsize <= i128::MAX ==> final(self).account == old(self).account + fsize,
            left == final(self).account,
    {
        self.account = self.account.wrapping_add(fsize as i128);
        self.account
    }

    /// Puts the zone in use where the share of it that is used is below the water level.
    pub fn note_level_left(&mut self, below: bool)
        ensures
            *final(self) == after_level_left(*old(self), below),
    {
        if below {
            self.available = true;
        }
    }
}

/// Storing an object lowers the account by its length, and nothing else changes. So does the available
/// size that is told, down to none.
pub proof fn law_store_lowers_size(disk: CommonDisk, fsize: u64)
    requires
        disk.account - fsize >= i128::MIN,
    ensures
        after_store(disk, fsize) == (CommonDisk {
            account: (disk.account - fsize) as i128,
            ..disk
        }),
        told_size(after_store(disk, fsize).account) <= told_size(disk.account),
        disk.account <= usize::MAX ==> told_size(after_store(disk, fsize).account) == (if fsize
            <= told_size(disk.account) {
            told_size(disk.account) - fsize
        } else {
            0
        }),
{
}

/// Storing an object and removing it again, with what the water level says each time, leaves the zone
/// as it was, whatever the object's length, but for whether it is in use: it is, where the share that
/// is used is below the level then.
pub proof fn law_remove_undoes_store(disk: CommonDisk, fsize: u64, reached: bool, below: bool)
    ensures
        ({
            let stored = after_level_reached(after_store(disk, fsize), reached);
            let removed = after_level_left(after_remove(stored, fsize), below);
            &&& removed == (CommonDisk {
                available: (disk.available && !reached) || below,
                ..disk
            })
            &&& below ==> removed.available
        }),
{
}

/// Two objects that were stored one after the other and are both removed again, in either order, leave
/// the account as it was, whatever their lengths.
pub proof fn law_overlapping_stores_are_undone(disk: CommonDisk, a: u64, b: u64)
    ensures
        ({
            let stored = after_store(after_store(disk, a), b);
            &&& after_remove(after_remove(stored, a), b) == disk
            &&& after_remove(after_remove(stored, b), a) == disk
        }),
{
}

/// Of the mounted file systems, one that the path lies under gives the sizes wherever it is listed
/// first among such.
pub proof fn law_first_mount_decides(
    before: Seq<Mount>,
    mount: Mount,
    after: Seq<Mount>,
    path: Seq<char>,
    otherwise: Sizes,
)
    requires
        crate::paths::lies_under(path, mount.point@),
        forall|i: int|
            0 <= i < before.len() ==> !crate::paths::lies_under(path, (#[trigger] before[i]).point@),
    ensures
        disk_sizes(before + seq![mount] + after, path, otherwise) == sizes_of(mount),
    decreases before.len(),
{
    let all = before + seq![mount] + after;
    if before.len() > 0 {
        let rest = before.drop_first();
        assert(all[0] == before[0]);
        assert(all.drop_first() =~= rest + seq![mount] + after);
        assert forall|i: int| 0 <= i < rest.len() implies !crate::paths::lies_under(
            path,
            (#[trigger] rest[i]).point@,
        ) by {
            assert(rest[i] == before[i + 1]);
        }
        law_first_mount_decides(rest, mount, after, path, otherwise);
        law_first_mount_decides(rest, mount, after, path, sizes_of(before[0]));
    } else {
        assert(all[0] == mount);
    }
}

/// Where the path lies under no mount point, the root that is listed last gives the sizes, and without
/// one there are none.
pub proof fn law_root_stands_in(front: Seq<Mount>, root: Mount, back: Seq<Mount>, path: Seq<char>)
    requires
        root.point@ == "/"@,
        !crate::paths::lies_under(path, root.point@),
        forall|i: int|
            0 <= i < front.len() ==> !crate::paths::lies_under(path, (#[trigger] front[i]).point@),
        forall|i: int|
            0 <= i < back.len() ==> !crate::paths::lies_under(path, (#[trigger] back[i]).point@)
                && back[i].point@ != "/"@,
    ensures
        disk_sizes(front + seq![root] + back, path, no_sizes()) == (Sizes {
            available: root.available as usize,
            total: root.total as usize,
        }),
        disk_sizes(back, path, no_sizes()) == (Sizes { available: 0, total: 0 }),
{
    lemma_none_stands_in(back, path, no_sizes());
    lemma_root_stands_in(front, root, back, path, no_sizes());
}

proof fn lemma_none_stands_in(mounts: Seq<Mount>, path: Seq<char>, otherwise: Sizes)
    requires
        forall|i: int|
            0 <= i < mounts.len() ==> !crate::paths::lies_under(path, (#[trigger] mounts[i]).point@)
                && mounts[i].point@ != "/"@,
    ensures
        disk_sizes(mounts, path, otherwise) == otherwise,
    decreases mounts.len(),
{
    if mounts.len() > 0 {
        let rest = mounts.drop_first();
        assert forall|i: int| 0 <= i < rest.len() implies !crate::paths::lies_under(
            path,
            (#[trigger] rest[i]).point@,
        ) && rest[i].point@ != "/"@ by {
            assert(rest[i] == mounts[i + 1]);
        }
        assert(mounts[0].point@ != "/"@);
        lemma_none_stands_in(rest, path, otherwise);
    }
}

proof fn lemma_root_stands_in(
    front: Seq<Mount>,
    root: Mount,
    back: Seq<Mount>,
    path: Seq<char>,
    otherwise: Sizes,
)
    requires
        root.point@ == "/"@,
        !crate::paths::lies_under(path, root.point@),
        forall|i: int|
            0 <= i < front.len() ==> !crate::paths::lies_under(path, (#[trigger] front[i]).point@),
        forall|i: int|
            0 <= i < back.len() ==> !crate::paths::lies_under(path, (#[trigger] back[i]).point@)
                && back[i].point@ != "/"@,
    ensures
        disk_sizes(front + seq![root] + back, path, otherwise) == sizes_of(root),
    decreases front.len(),
{
    let all = front + seq![root] + back;
    if front.len() > 0 {
        let rest = front.drop_first();
        assert(all[0] == front[0]);
        assert(all.drop_first() =~= rest + seq![root] + back);
        assert forall|i: int| 0 <= i < rest.len() implies !crate::paths::lies_under(
            path,
            (#[trigger] rest[i]).point@,
        ) by {
            assert(rest[i] == front[i + 1]);
        }
        lemma_root_stands_in(rest, root, back, path, otherwise);
        lemma_root_stands_in(rest, root, back, path, sizes_of(front[0]));
    } else {
        assert(all[0] == root);
        assert(all.drop_first() =~= back);
        lemma_none_stands_in(back, path, sizes_of(root));
    }
}

/// The sizes of a mounted file system are the bytes that are free and the bytes of the whole.
pub proof fn law_sizes_are_those_of_the_mount(mount: Mount)
    requires
        mount.available <= usize::MAX,
        mount.total <= usize::MAX,
    ensures
        sizes_of(mount).available == mount.available,
        sizes_of(mount).total == mount.total,
{
}

/// The available size that is told is the account as far as it can be, none below it and the largest
/// number above.
pub proof fn law_account_is_told(account: i128)
    ensures
        0 <= account <= usize::MAX ==> told_size(account) == account,
        account < 0 ==> told_size(account) == 0,
        account > usize::MAX ==> told_size(account) == usize::MAX,
{
}

/// A zone goes out of use where the level is reached when something is stored, comes back in use where it
/// is below the level when something is removed, and else stays as it is; nothing else of it changes.
pub proof fn law_level_decides_use(disk: CommonDisk)
    ensures
        !after_level_reached(disk, true).available,
        after_level_reached(disk, false) == disk,
        after_level_left(disk, true).available,
        after_level_left(disk, false) == disk,
        after_level_reached(disk, true).account == disk.account,
        after_level_left(disk, true).account == disk.account,
        after_level_reached(disk, true).total_size == disk.total_size,
        after_level_left(disk, true).total_size == disk.total_size,
{
}

} // verus!
