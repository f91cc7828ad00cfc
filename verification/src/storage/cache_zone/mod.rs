//! Cache zones: places where the bodies of cached objects are stored.
pub mod disk;

use vstd::prelude::*;
use vstd::string::*;
use crate::error::{ErrorKind, ErrorView};

verus! {

/// The state of a cache zone.
#[derive(Clone, Copy, PartialEq, Eq, Structural, Debug)]
pub struct CacheState {
    /// The size that is still available.
    pub avaiable_size: usize,
    /// The size of the whole.
    pub total_size: usize,
    /// How often the disk failed.
    pub error_count: usize,
}

/// Which bytes of an object are asked for.
#[derive(Clone, Copy, Debug)]
pub struct GetOption {
    /// The first and the last byte, each -1 where it is not given.
    pub rng: (i64, i64),
}

/// What is known of a stored object.
#[derive(Clone, Copy, PartialEq, Eq, Structural, Debug)]
pub struct MetaData {
    /// The size in bytes.
    pub size: u64,
}

/// What a zone reports when a place for an object is looked for.
#[derive(Clone, Copy, PartialEq, Eq, Structural, Debug)]
pub struct ZoneReport {
    /// The state of the zone.
    pub state: CacheState,
    /// Whether the zone's usage is below the limit.
    pub usage_ok: bool,
}

/// Whether a zone can take an object of `size` bytes.
pub open spec fn fits(zone: ZoneReport, size: usize) -> bool {
    zone.state.avaiable_size > size && zone.usage_ok
}

/// The last of the zones that can take an object of `size` bytes.
pub open spec fn last_fitting(zones: Seq<ZoneReport>, size: usize) -> Option<int>
    decreases zones.len(),
{
    if zones.len() == 0 {
        None
    } else if fits(zones.last(), size) {
        Some(zones.len() - 1)
    } else {
        last_fitting(zones.drop_last(), size)
    }
}

/// The zone that an object of `size` bytes is stored in. Its number is kept in eight bits.
pub open spec fn suitable_zone(zones: Seq<ZoneReport>, size: usize) -> Result<u8, ErrorView> {
    match last_fitting(zones, size) {
        Some(i) => Ok((i as usize) as u8),
        None => Err(ErrorView::Machine("not avaiable cache_zone"@)),
    }
}

/// A choice of zone, by its characters.
pub open spec fn zone_outcome(zone: Result<u8, ErrorKind>) -> Result<u8, ErrorView> {
    match zone {
        Ok(i) => Ok(i),
        Err(err) => Err(err@),
    }
}

/// Chooses the zone that an object of `size` bytes is stored in.
pub fn get_suitable_cache_zone(zones: &Vec<ZoneReport>, size: usize) -> (zone: Result<u8, ErrorKind>)
    ensures
        zone_outcome(zone) == suitable_zone(zones@, size),
{
    let mut ret: Option<usize> = None;
    let mut index: usize = 0;
    proof {
        assert(zones@.take(0) =~= Seq::<ZoneReport>::empty());
    }
    while index < zones.len()
        invariant
            index <= zones.len(),
            match ret {
                Some(i) => last_fitting(zones@.take(index as int), size) == Some(i as int),
                None => last_fitting(zones@.take(index as int), size) is None,
            },
        decreases zones.len() - index,
    {
        proof {
            assert(zones@.take(index + 1).drop_last() =~= zones@.take(index as int));
        }
        if zones[index].state.avaiable_size > size && zones[index].usage_ok {
            ret = Some(index);
        }
        index = index + 1;
    }
    assert(zones@.take(zones@.len() as int) =~= zones@);
    match ret {
        Some(index) => Ok(#[verifier::truncate] (index as u8)),
        None => Err(ErrorKind::MachineError("not avaiable cache_zone".to_owned())),
    }
}

/// Of at most as many zones as eight bits can number, the one chosen can take the object, and none
/// behind it can. None is chosen only where none can.
pub proof fn law_chosen_zone_fits(zones: Seq<ZoneReport>, size: usize)
    requires
        zones.len() <= 256,
    ensures
        match suitable_zone(zones, size) {
            Ok(i) => i < zones.len() && fits(zones[i as int], size) && forall|j: int|
                i < j < zones.len() ==> !fits(#[trigger] zones[j], size),
            Err(_) => forall|j: int| 0 <= j < zones.len() ==> !fits(#[trigger] zones[j], size),
        },
{
    lemma_last_fitting(zones, size);
}

proof fn lemma_last_fitting(zones: Seq<ZoneReport>, size: usize)
    ensures
        match last_fitting(zones, size) {
            Some(i) => 0 <= i < zones.len() && fits(zones[i], size) && forall|j: int|
                i < j < zones.len() ==> !fits(#[trigger] zones[j], size),
            None => forall|j: int| 0 <= j < zones.len() ==> !fits(#[trigger] zones[j], size),
        },
    decreases zones.len(),
{
    if zones.len() > 0 {
        let front = zones.drop_last();
        lemma_last_fitting(front, size);
        assert forall|j: int| 0 <= j < front.len() implies front[j] == #[trigger] zones[j] by {}
    }
}

/// Of at most as many zones as eight bits can number, the one chosen has more room than the object takes
/// and a usage below the limit, and the zones behind it have not; where none is chosen, none has.
pub proof fn law_chosen_zone_has_room(zones: Seq<ZoneReport>, size: usize)
    requires
        zones.len() <= 256,
    ensures
        match suitable_zone(zones, size) {
            Ok(i) => i < zones.len() && zones[i as int].state.avaiable_size > size
                && zones[i as int].usage_ok && forall|j: int|
                i < j < zones.len() ==> (#[trigger] zones[j]).state.avaiable_size <= size
                    || !zones[j].usage_ok,
            Err(err) => err == ErrorView::Machine("not avaiable cache_zone"@) && forall|j: int|
                0 <= j < zones.len() ==> (#[trigger] zones[j]).state.avaiable_size <= size
                    || !zones[j].usage_ok,
        },
{
    law_chosen_zone_fits(zones, size);
    match suitable_zone(zones, size) {
        Ok(i) => {
            assert forall|j: int| i < j < zones.len() implies (
            #[trigger] zones[j]).state.avaiable_size <= size || !zones[j].usage_ok by {
                assert(!fits(zones[j], size));
            }
        },
        Err(_) => {
            assert forall|j: int| 0 <= j < zones.len() implies (
            #[trigger] zones[j]).state.avaiable_size <= size || !zones[j].usage_ok by {
                assert(!fits(zones[j], size));
            }
        },
    }
}

} // verus!
