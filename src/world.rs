//! The world: the player's position, the horde, and the map's extent.

use crate::enemies::{valid_size, HordeEnemies};
use crate::geometry::Point;
use vstd::prelude::*;

verus! {

pub struct World {
    pub player_pos: Point,
    pub horde: HordeEnemies,
    /// Id of the map in play.
    pub map: u32,
    /// Extent of the map: the world is `[0, size.x] x [0, size.y]`.
    pub size: Point,
}

impl World {
    /// The player stands in the world and every enemy in the plane.
    pub open spec fn wf(&self) -> bool {
        &&& valid_size(self.size)
        &&& 0 <= self.player_pos.x <= self.size.x
        &&& 0 <= self.player_pos.y <= self.size.y
        &&& self.horde.wf()
    }

    /// An empty world of the given extent, the player at the origin.
    pub fn new(map_size: Point) -> (r: World)
        requires
            valid_size(map_size),
        ensures
            r.player_pos == (Point { x: 0, y: 0 }),
            r.horde.enemies@.len() == 0,
            r.map == 0,
            r.size == map_size,
            r.wf(),
    {
        World { player_pos: Point { x: 0, y: 0 }, horde: HordeEnemies::new(), map: 0, size: map_size }
    }

    /// Extent of the map.
    pub fn map_size(&self) -> (r: Point)
        ensures
            r == self.size,
    {
        self.size
    }
}

} // verus!
