use vstd::prelude::*;

use crate::components::{BoundingBox, Sprite};
use crate::geometry::{Point, Rect};
use crate::world::{EntityView, World};

verus! {

/// The draw list the renderer consumes: for every alive entity holding both
/// a bounding box and a sprite, the pair, in entity order.
pub open spec fn snapshot_spec(entities: Seq<EntityView>) -> Seq<(BoundingBox, Sprite)>
    decreases entities.len(),
{
    if entities.len() == 0 {
        Seq::empty()
    } else {
        let e = entities.last();
        snapshot_spec(entities.drop_last()) + if e.alive && e.bounding_box is Some
            && e.sprite is Some {
            seq![(e.bounding_box->0, e.sprite->0)]
        } else {
            Seq::empty()
        }
    }
}

/// The bounding box of the last alive entity marked as the player that has
/// one; the renderer centers the camera on it.
pub open spec fn player_box_spec(entities: Seq<EntityView>) -> Option<BoundingBox>
    decreases entities.len(),
{
    if entities.len() == 0 {
        None
    } else {
        let e = entities.last();
        if e.alive && e.player is Some && e.bounding_box is Some {
            Some(e.bounding_box->0)
        } else {
            player_box_spec(entities.drop_last())
        }
    }
}

/// Read-only extraction of everything the renderer draws.  No other state
/// crosses the rendering boundary.
pub fn render_snapshot(world: &World) -> (r: Vec<(BoundingBox, Sprite)>)
    ensures
        r@ == snapshot_spec(world@.entities),
{
    let mut out: Vec<(BoundingBox, Sprite)> = Vec::new();
    let n = world.entity_count();
    let mut i: usize = 0;
    while i < n
        invariant
            n == world@.entities.len(),
            i <= n,
            out@ == snapshot_spec(world@.entities.take(i as int)),
        decreases n - i,
    {
        let alive = world.is_alive(i);
        let bounds = match world.get_bounding_box(i) {
            Some(b) => Some(*b),
            None => None,
        };
        let sprite = match world.get_sprite(i) {
            Some(s) => Some(*s),
            None => None,
        };
        if alive && bounds.is_some() && sprite.is_some() {
            out.push((bounds.unwrap(), sprite.unwrap()));
        }
        proof {
            assert(world@.entities.take(i as int + 1).drop_last()
                =~= world@.entities.take(i as int));
            assert(world@.entities.take(i as int + 1).last() == world@.entities[i as int]);
            assert(out@ =~= snapshot_spec(world@.entities.take(i as int + 1)));
        }
        i = i + 1;
    }
    proof {
        assert(world@.entities.take(world@.entities.len() as int) =~= world@.entities);
    }
    out
}

/// The camera anchor: the player's bounding box, if a player entity with a
/// position exists.
pub fn player_bounding_box(world: &World) -> (r: Option<BoundingBox>)
    ensures
        r == player_box_spec(world@.entities),
{
    let mut found: Option<BoundingBox> = None;
    let n = world.entity_count();
    let mut i: usize = 0;
    while i < n
        invariant
            n == world@.entities.len(),
            i <= n,
            found == player_box_spec(world@.entities.take(i as int)),
        decreases n - i,
    {
        let alive = world.is_alive(i);
        let is_player = world.get_player(i).is_some();
        let bounds = match world.get_bounding_box(i) {
            Some(b) => Some(*b),
            None => None,
        };
        if alive && is_player && bounds.is_some() {
            found = bounds;
        }
        proof {
            assert(world@.entities.take(i as int + 1).drop_last()
                =~= world@.entities.take(i as int));
            assert(world@.entities.take(i as int + 1).last() == world@.entities[i as int]);
        }
        i = i + 1;
    }
    proof {
        assert(world@.entities.take(world@.entities.len() as int) =~= world@.entities);
    }
    found
}

/// Where on screen a world-space bounding box is drawn: the screen
/// coordinate system has its origin in the top-left corner, while the world
/// is centered on the camera, so the screen position is the world center
/// shifted by the camera and half the screen; the drawn rectangle takes the
/// sprite region's size.
pub fn screen_rect(
    bounds: &BoundingBox,
    camera_center: Point,
    screen_width: u32,
    screen_height: u32,
    region: Rect,
) -> (r: Rect)
    requires
        bounds.0.spec_center_x() <= i32::MAX,
        bounds.0.spec_center_y() <= i32::MAX,
        screen_width / 2 <= i32::MAX,
        screen_height / 2 <= i32::MAX,
        i32::MIN <= bounds.0.spec_center_x() - camera_center.x <= i32::MAX,
        i32::MIN <= bounds.0.spec_center_y() - camera_center.y <= i32::MAX,
        i32::MIN + region.width / 2
            <= bounds.0.spec_center_x() - camera_center.x + screen_width / 2 <= i32::MAX,
        i32::MIN + region.height / 2
            <= bounds.0.spec_center_y() - camera_center.y + screen_height / 2 <= i32::MAX,
    ensures
        r == Rect::spec_from_center(
            bounds.0.spec_center_x() - camera_center.x + screen_width / 2,
            bounds.0.spec_center_y() - camera_center.y + screen_height / 2,
            region.width,
            region.height,
        ),
{
    let center = bounds.0.center();
    let screen_x = center.x - camera_center.x + (screen_width / 2) as i32;
    let screen_y = center.y - camera_center.y + (screen_height / 2) as i32;
    Rect::from_center(screen_x, screen_y, region.width, region.height)
}

} // verus!
