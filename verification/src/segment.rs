//! The segment catalog: pre-composed obstacle groups placed together so
//! that every generated pattern is traversable and no two obstacles of a
//! segment overlap horizontally.

use vstd::prelude::*;
use crate::geometry::{Point, Rect};
use crate::obstacle::{
    spec_boxes, spec_box_sizes_wf, spec_boxes_within, spec_compact, spec_h_disjoint,
    spec_h_ordered, spec_obstacle_right, spec_place, spec_rightmost, Barrier, Image, Obstacle,
    Platform,
};
use crate::sheet::SpriteSheet;

verus! {

/// Ground height where a stone rests.
pub const STONE_ON_GROUND: i16 = 546;

/// Height of a platform the character can slide under.
pub const LOW_PLATFORM: i16 = 420;

/// Height of a platform the character must jump onto.
pub const HIGH_PLATFORM: i16 = 375;

/// Total width of a floating platform's sprites.
pub const FLOATING_PLATFORM_WIDTH: i16 = 384;

/// How far into the segment the first stone of `stone_and_platform`
/// stands.
pub const INITIAL_STONE_OFFSET: i16 = 150;

/// The widest stone image a segment accepts; keeps the stone clear of
/// the platform that follows it.
pub const MAX_STONE_WIDTH: i16 = 250;

/// No part of a segment reaches further than this past its offset.
pub const SEGMENT_REACH: i16 = 900;

/// A floating platform: three sprites drawn end to end, with an edge
/// box on each side and a wide box in the middle.
fn floating_platform(sprite_sheet: &SpriteSheet, position: Point) -> (r: Platform)
    requires
        -20000 <= position.x <= 20000,
        -20000 <= position.y <= 20000,
    ensures
        r.image == sprite_sheet.image,
        r.position == position,
        r.bounding_boxes@ =~= seq![
            (Rect {
                position: Point { x: (position.x) as i16, y: position.y },
                width: 60,
                height: 54,
            }),
            (Rect {
                position: Point { x: (position.x + 60) as i16, y: position.y },
                width: 264,
                height: 54,
            }),
            (Rect {
                position: Point { x: (position.x + 324) as i16, y: position.y },
                width: 60,
                height: 54,
            }),
        ],
{
    let names: Vec<&str> = vec!["13.png", "14.png", "15.png"];
    let mut relative: Vec<Rect> = Vec::new();
    relative.push(Rect::new_from_x_y(0, 0, 60, 54));
    relative.push(Rect::new_from_x_y(60, 0, 264, 54));
    relative.push(Rect::new_from_x_y(FLOATING_PLATFORM_WIDTH - 60, 0, 60, 54));
    let platform = Platform::new(sprite_sheet, position, names.as_slice(), relative.as_slice());
    proof {
        assert(platform.bounding_boxes@[0] == spec_place(relative@[0], position));
        assert(platform.bounding_boxes@[1] == spec_place(relative@[1], position));
        assert(platform.bounding_boxes@[2] == spec_place(relative@[2], position));
    }
    platform
}

/// A stone on the ground followed by a low floating platform.
pub fn stone_and_platform(
    stone: u32,
    stone_width: i16,
    stone_height: i16,
    sprite_sheet: &SpriteSheet,
    offset_x: i16,
) -> (r: Vec<Obstacle>)
    requires
        0 <= stone_width <= MAX_STONE_WIDTH,
        0 <= stone_height <= 2000,
        -20000 <= offset_x <= 19000,
    ensures
        r@.len() == 2,
        forall|k: int| 0 <= k < r@.len() ==> spec_boxes(#[trigger] r@[k]).len() > 0,
        forall|k: int| 0 <= k < r@.len() ==> spec_box_sizes_wf(#[trigger] r@[k]),
        forall|k: int|
            0 <= k < r@.len() ==> spec_boxes_within(
                #[trigger] r@[k],
                offset_x as int,
                offset_x + SEGMENT_REACH,
            ),
        spec_h_disjoint(r@[0], r@[1]),
        spec_h_ordered(r@[0], r@[1]),
        forall|k: int| 0 <= k < r@.len() ==> spec_compact(#[trigger] r@[k]),
        forall|k: int|
            0 <= k < r@.len() ==> spec_boxes_within(
                #[trigger] r@[k],
                offset_x as int,
                spec_rightmost(r@),
            ),
        offset_x + 300 <= spec_rightmost(r@) <= offset_x + SEGMENT_REACH,
{
    let mut obstacles: Vec<Obstacle> = Vec::new();
    obstacles.push(
        Obstacle::Barrier(
            Barrier::new(
                Image::new(
                    stone,
                    stone_width,
                    stone_height,
                    Point { x: offset_x + INITIAL_STONE_OFFSET, y: STONE_ON_GROUND },
                ),
            ),
        ),
    );
    obstacles.push(
        Obstacle::Platform(
            floating_platform(
                sprite_sheet,
                Point { x: offset_x + 400, y: LOW_PLATFORM },
            ),
        ),
    );
    proof {
        assert(spec_boxes(obstacles@[0]).len() == 1);
        assert(spec_boxes(obstacles@[1]).len() == 3);
        assert(obstacles@.drop_last() =~= seq![obstacles@[0]]);
        assert(spec_obstacle_right(obstacles@[0]) == offset_x + 150 + stone_width);
        assert(spec_obstacle_right(obstacles@[1]) == offset_x + 784);
        assert(spec_rightmost(seq![obstacles@[0]]) == spec_obstacle_right(obstacles@[0]));
        assert(spec_rightmost(obstacles@) == offset_x + 784);
    }
    obstacles
}

/// A high floating platform followed by a stone on the ground.
pub fn platform_and_stone(
    stone: u32,
    stone_width: i16,
    stone_height: i16,
    sprite_sheet: &SpriteSheet,
    offset_x: i16,
) -> (r: Vec<Obstacle>)
    requires
        0 <= stone_width <= MAX_STONE_WIDTH,
        0 <= stone_height <= 2000,
        -20000 <= offset_x <= 19000,
    ensures
        r@.len() == 2,
        forall|k: int| 0 <= k < r@.len() ==> spec_boxes(#[trigger] r@[k]).len() > 0,
        forall|k: int| 0 <= k < r@.len() ==> spec_box_sizes_wf(#[trigger] r@[k]),
        forall|k: int|
            0 <= k < r@.len() ==> spec_boxes_within(
                #[trigger] r@[k],
                offset_x as int,
                offset_x + SEGMENT_REACH,
            ),
        spec_h_disjoint(r@[0], r@[1]),
        spec_h_ordered(r@[0], r@[1]),
        forall|k: int| 0 <= k < r@.len() ==> spec_compact(#[trigger] r@[k]),
        forall|k: int|
            0 <= k < r@.len() ==> spec_boxes_within(
                #[trigger] r@[k],
                offset_x as int,
                spec_rightmost(r@),
            ),
        offset_x + 300 <= spec_rightmost(r@) <= offset_x + SEGMENT_REACH,
{
    let mut obstacles: Vec<Obstacle> = Vec::new();
    obstacles.push(
        Obstacle::Platform(
            floating_platform(
                sprite_sheet,
                Point { x: offset_x + 200, y: HIGH_PLATFORM },
            ),
        ),
    );
    obstacles.push(
        Obstacle::Barrier(
            Barrier::new(
                Image::new(
                    stone,
                    stone_width,
                    stone_height,
                    Point { x: offset_x + 640, y: STONE_ON_GROUND },
                ),
            ),
        ),
    );
    proof {
        assert(spec_boxes(obstacles@[0]).len() == 3);
        assert(spec_boxes(obstacles@[1]).len() == 1);
        assert(obstacles@.drop_last() =~= seq![obstacles@[0]]);
        assert(spec_obstacle_right(obstacles@[0]) == offset_x + 584);
        assert(spec_obstacle_right(obstacles@[1]) == offset_x + 640 + stone_width);
        assert(spec_rightmost(seq![obstacles@[0]]) == spec_obstacle_right(obstacles@[0]));
        assert(spec_rightmost(obstacles@) == offset_x + 640 + stone_width);
    }
    obstacles
}

} // verus!
