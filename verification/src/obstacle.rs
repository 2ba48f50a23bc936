//! Obstacles: platforms the character can land on and barriers that are
//! lethal on any touch, plus the collision policy between them and the
//! character.

use vstd::prelude::*;
use crate::geometry::{add_clamped, clamp_i16, spec_intersects, spec_right, Point, Rect};
use crate::red_hat_boy::{spec_context, spec_transition, Event, RedHatBoy};
use crate::render::DrawCommand;
use crate::sheet::{lookup_cell, Cell, Sheet, SpriteSheet};

verus! {

/// `r` shifted horizontally by `dx`, saturating at the `i16` bounds.
pub open spec fn spec_translate_x(r: Rect, dx: i16) -> Rect {
    Rect {
        position: Point { x: clamp_i16(r.position.x + dx) as i16, y: r.position.y },
        width: r.width,
        height: r.height,
    }
}

/// `r` moved so that its corner is offset by `p`.
pub open spec fn spec_place(r: Rect, p: Point) -> Rect {
    Rect {
        position: Point {
            x: clamp_i16(r.position.x + p.x) as i16,
            y: clamp_i16(r.position.y + p.y) as i16,
        },
        width: r.width,
        height: r.height,
    }
}

/// The first box in `boxes` that the character's box intersects.
pub open spec fn spec_first_hit(boxes: Seq<Rect>, bb: Rect) -> Option<Rect>
    decreases boxes.len(),
{
    if boxes.len() <= 0 {
        None
    } else if spec_intersects(bb, boxes[0]) {
        Some(boxes[0])
    } else {
        spec_first_hit(boxes.drop_first(), bb)
    }
}

/// The cells the named sprites resolve to; names the sheet lacks are
/// skipped.
pub open spec fn spec_collect_cells(sheet: Sheet, names: Seq<&str>) -> Seq<Cell>
    decreases names.len(),
{
    if names.len() <= 0 {
        Seq::empty()
    } else {
        let rest = spec_collect_cells(sheet, names.drop_first());
        match lookup_cell(sheet.frames@, names[0]@) {
            Some(c) => seq![c] + rest,
            None => rest,
        }
    }
}

/// An image placed in the world: the handle the host gave its pixels,
/// plus where it sits.
#[derive(Clone, Copy, PartialEq, Eq, Structural, Debug)]
pub struct Image {
    pub element: u32,
    pub bounding_box: Rect,
}

impl Image {
    pub fn new(element: u32, width: i16, height: i16, position: Point) -> (r: Self)
        ensures
            r.element == element,
            r.bounding_box == (Rect { position, width, height }),
    {
        Image { element, bounding_box: Rect::new(position, width, height) }
    }

    pub fn draw(&self) -> (r: DrawCommand)
        ensures
            r == (DrawCommand::EntireImage {
                image: self.element,
                position: self.bounding_box.position,
            }),
    {
        DrawCommand::EntireImage { image: self.element, position: self.bounding_box.position }
    }

    pub fn bounding_box(&self) -> (r: &Rect)
        ensures
            *r == self.bounding_box,
    {
        &self.bounding_box
    }

    pub fn move_horizontally(&mut self, distance: i16)
        ensures
            final(self).element == old(self).element,
            final(self).bounding_box == spec_translate_x(old(self).bounding_box, distance),
    {
        let x = add_clamped(self.bounding_box.x(), distance);
        self.set_x(x);
    }

    pub fn set_x(&mut self, x: i16)
        ensures
            final(self).element == old(self).element,
            final(self).bounding_box == (Rect {
                position: Point { x, y: old(self).bounding_box.position.y },
                width: old(self).bounding_box.width,
                height: old(self).bounding_box.height,
            }),
    {
        self.bounding_box.set_x(x);
    }

    pub fn right(&self) -> (r: i16)
        ensures
            r == clamp_i16(spec_right(self.bounding_box)),
    {
        add_clamped(self.bounding_box.x(), self.bounding_box.width)
    }
}

/// A landable surface: one or more sprites drawn end to end, with a list
/// of independently placed collision boxes.
#[derive(Clone, Debug)]
pub struct Platform {
    pub image: u32,
    pub sprites: Vec<Cell>,
    pub bounding_boxes: Vec<Rect>,
    pub position: Point,
}

impl Platform {
    pub fn new(
        sheet: &SpriteSheet,
        position: Point,
        sprite_names: &[&str],
        bounding_boxs: &[Rect],
    ) -> (r: Self)
        ensures
            r.image == sheet.image,
            r.position == position,
            r.sprites@ == spec_collect_cells(sheet.sheet, sprite_names@),
            r.bounding_boxes@.len() == bounding_boxs@.len(),
            forall|i: int|
                0 <= i < bounding_boxs@.len() ==> r.bounding_boxes@[i] == spec_place(
                    #[trigger] bounding_boxs@[i],
                    position,
                ),
    {
        let mut sprites: Vec<Cell> = Vec::new();
        let mut i: usize = sprite_names.len();
        while i > 0
            invariant
                i <= sprite_names@.len(),
                sprites@ == spec_collect_cells(sheet.sheet, sprite_names@.skip(i as int)),
            decreases i,
        {
            i = i - 1;
            proof {
                let tail = sprite_names@.skip(i as int);
                assert(tail[0] == sprite_names@[i as int]);
                assert(tail.drop_first() =~= sprite_names@.skip(i as int + 1));
            }
            match sheet.cell(sprite_names[i]) {
                Some(cell) => {
                    let mut with_cell: Vec<Cell> = Vec::new();
                    with_cell.push(*cell);
                    with_cell.append(&mut sprites);
                    sprites = with_cell;
                },
                None => {},
            }
        }
        proof {
            assert(sprite_names@.skip(0) =~= sprite_names@);
        }
        let mut bounding_boxes: Vec<Rect> = Vec::new();
        let mut j: usize = 0;
        while j < bounding_boxs.len()
            invariant
                j <= bounding_boxs@.len(),
                bounding_boxes@.len() == j,
                forall|k: int|
                    0 <= k < j ==> bounding_boxes@[k] == spec_place(
                        #[trigger] bounding_boxs@[k],
                        position,
                    ),
            decreases bounding_boxs@.len() - j,
        {
            let b = &bounding_boxs[j];
            bounding_boxes.push(
                Rect::new_from_x_y(
                    add_clamped(b.x(), position.x),
                    add_clamped(b.y(), position.y),
                    b.width,
                    b.height,
                ),
            );
            j = j + 1;
        }
        Platform { image: sheet.image, sprites, bounding_boxes, position }
    }

    pub fn bounding_boxes(&self) -> (r: &Vec<Rect>)
        ensures
            *r == self.bounding_boxes,
    {
        &self.bounding_boxes
    }
}

/// A single lethal obstacle drawn from one image.
#[derive(Clone, Debug)]
pub struct Barrier {
    pub image: Image,
}

impl Barrier {
    pub fn new(image: Image) -> (r: Self)
        ensures
            r.image == image,
    {
        Barrier { image }
    }
}

/// Any live obstacle: the closed sum of the obstacle kinds.
#[derive(Clone, Debug)]
pub enum Obstacle {
    Platform(Platform),
    Barrier(Barrier),
}

/// What touching `o` does to the character: `None` when they do not
/// collide; otherwise the event the collision sends.  A platform lands
/// the character only when it is falling onto the platform from above;
/// every other contact knocks it out.
pub open spec fn spec_collision_event(o: Obstacle, boy: RedHatBoy) -> Option<Event> {
    match o {
        Obstacle::Platform(p) => match spec_first_hit(p.bounding_boxes@, boy.spec_bounding_box()) {
            Some(b) => {
                let c = spec_context(boy.state_machine);
                if c.velocity.y > 0 && c.position.y < p.position.y {
                    Some(Event::Land(b.position.y))
                } else {
                    Some(Event::KnockOut)
                }
            },
            None => None,
        },
        Obstacle::Barrier(b) => if spec_intersects(boy.spec_bounding_box(), b.image.bounding_box) {
            Some(Event::KnockOut)
        } else {
            None
        },
    }
}

/// Two obstacles stand in the `moved by dx` relation.
pub open spec fn spec_moved(before: Obstacle, after: Obstacle, dx: i16) -> bool {
    match (before, after) {
        (Obstacle::Platform(po), Obstacle::Platform(pa)) => {
            &&& pa.image == po.image
            &&& pa.sprites == po.sprites
            &&& pa.position == (Point {
                x: clamp_i16(po.position.x + dx) as i16,
                y: po.position.y,
            })
            &&& pa.bounding_boxes@.len() == po.bounding_boxes@.len()
            &&& forall|i: int|
                0 <= i < po.bounding_boxes@.len() ==> pa.bounding_boxes@[i] == spec_translate_x(
                    #[trigger] po.bounding_boxes@[i],
                    dx,
                )
        },
        (Obstacle::Barrier(bo), Obstacle::Barrier(ba)) => {
            &&& ba.image.element == bo.image.element
            &&& ba.image.bounding_box == spec_translate_x(bo.image.bounding_box, dx)
        },
        _ => false,
    }
}

/// The rightmost edge of an obstacle, as its `right` method reports it:
/// a platform answers with its last box, a barrier with its image.
pub open spec fn spec_obstacle_right(o: Obstacle) -> int {
    match o {
        Obstacle::Platform(p) => if p.bounding_boxes@.len() == 0 {
            0
        } else {
            clamp_i16(spec_right(p.bounding_boxes@.last()))
        },
        Obstacle::Barrier(b) => clamp_i16(spec_right(b.image.bounding_box)),
    }
}

impl Obstacle {
    /// Resolve a collision between the character and this obstacle,
    /// sending the character the event the contact calls for.
    pub fn check_intersection(&self, boy: &mut RedHatBoy)
        requires
            old(boy).wf(),
        ensures
            final(boy).sprite_sheet == old(boy).sprite_sheet,
            final(boy).image == old(boy).image,
            final(boy).wf(),
            match spec_collision_event(*self, *old(boy)) {
                Some(event) => final(boy).state_machine == spec_transition(
                    old(boy).state_machine,
                    event,
                ),
                None => final(boy).state_machine == old(boy).state_machine,
            },
    {
        match self {
            Obstacle::Platform(platform) => {
                let bb = boy.bounding_box();
                let boxes = &platform.bounding_boxes;
                let mut i: usize = 0;
                proof {
                    assert(boxes@.skip(0) =~= boxes@);
                }
                while i < boxes.len()
                    invariant
                        i <= boxes@.len(),
                        old(boy).wf(),
                        bb == old(boy).spec_bounding_box(),
                        *boy == *old(boy),
                        *self == Obstacle::Platform(*platform),
                        boxes@ == platform.bounding_boxes@,
                        spec_first_hit(boxes@, bb) == spec_first_hit(boxes@.skip(i as int), bb),
                    decreases boxes@.len() - i,
                {
                    proof {
                        let rest = boxes@.skip(i as int);
                        assert(rest[0] == boxes@[i as int]);
                        assert(rest.drop_first() =~= boxes@.skip(i as int + 1));
                    }
                    if bb.intersects(&boxes[i]) {
                        if boy.velocity_y() > 0 && boy.pos_y() < platform.position.y {
                            let surface = boxes[i].y();
                            boy.land_on(surface);
                        } else {
                            boy.knock_out();
                        }
                        return ;
                    }
                    i = i + 1;
                }
                proof {
                    assert(boxes@.skip(i as int) =~= Seq::<Rect>::empty());
                }
            },
            Obstacle::Barrier(barrier) => {
                let bb = boy.bounding_box();
                if bb.intersects(barrier.image.bounding_box()) {
                    boy.knock_out();
                }
            },
        }
    }

    /// The draw commands that paint this obstacle.
    pub fn draw(&self) -> (r: Vec<DrawCommand>)
        ensures
            match *self {
                Obstacle::Platform(p) => {
                    &&& r@.len() == p.sprites@.len()
                    &&& forall|i: int|
                        0 <= i < p.sprites@.len() ==> r@[i] == (DrawCommand::Image {
                            image: p.image,
                            source: (Rect {
                                position: Point {
                                    x: (#[trigger] p.sprites@[i]).frame.x,
                                    y: p.sprites@[i].frame.y,
                                },
                                width: p.sprites@[i].frame.w,
                                height: p.sprites@[i].frame.h,
                            }),
                            destination: (Rect {
                                position: Point {
                                    x: clamp_i16(
                                        p.position.x + spec_sprite_offset(p.sprites@, i),
                                    ) as i16,
                                    y: p.position.y,
                                },
                                width: p.sprites@[i].frame.w,
                                height: p.sprites@[i].frame.h,
                            }),
                        })
                },
                Obstacle::Barrier(b) => r@ =~= seq![
                    DrawCommand::EntireImage {
                        image: b.image.element,
                        position: b.image.bounding_box.position,
                    },
                ],
            },
            r@ =~= spec_obstacle_cmds(*self),
    {
        match self {
            Obstacle::Platform(platform) => {
                let mut commands: Vec<DrawCommand> = Vec::new();
                let mut x_cursor: i16 = 0;
                let mut i: usize = 0;
                while i < platform.sprites.len()
                    invariant
                        i <= platform.sprites@.len(),
                        commands@.len() == i,
                        x_cursor == spec_sprite_offset(platform.sprites@, i as int),
                        forall|k: int|
                            0 <= k < i ==> commands@[k] == (DrawCommand::Image {
                                image: platform.image,
                                source: (Rect {
                                    position: Point {
                                        x: (#[trigger] platform.sprites@[k]).frame.x,
                                        y: platform.sprites@[k].frame.y,
                                    },
                                    width: platform.sprites@[k].frame.w,
                                    height: platform.sprites@[k].frame.h,
                                }),
                                destination: (Rect {
                                    position: Point {
                                        x: clamp_i16(
                                            platform.position.x + spec_sprite_offset(
                                                platform.sprites@,
                                                k,
                                            ),
                                        ) as i16,
                                        y: platform.position.y,
                                    },
                                    width: platform.sprites@[k].frame.w,
                                    height: platform.sprites@[k].frame.h,
                                }),
                            }),
                    decreases platform.sprites@.len() - i,
                {
                    let sprite = &platform.sprites[i];
                    commands.push(
                        DrawCommand::Image {
                            image: platform.image,
                            source: Rect::new_from_x_y(
                                sprite.frame.x,
                                sprite.frame.y,
                                sprite.frame.w,
                                sprite.frame.h,
                            ),
                            destination: Rect::new_from_x_y(
                                add_clamped(platform.position.x, x_cursor),
                                platform.position.y,
                                sprite.frame.w,
                                sprite.frame.h,
                            ),
                        },
                    );
                    x_cursor = add_clamped(x_cursor, sprite.frame.w);
                    i = i + 1;
                }
                commands
            },
            Obstacle::Barrier(barrier) => {
                let mut commands: Vec<DrawCommand> = Vec::new();
                commands.push(barrier.image.draw());
                commands
            },
        }
    }

    /// Shift the obstacle horizontally by `x`.
    pub fn move_horizontally(&mut self, x: i16)
        ensures
            spec_moved(*old(self), *final(self), x),
    {
        match self {
            Obstacle::Platform(platform) => {
                platform.position.x = add_clamped(platform.position.x, x);
                let boxes = &platform.bounding_boxes;
                let mut moved: Vec<Rect> = Vec::new();
                let mut i: usize = 0;
                while i < boxes.len()
                    invariant
                        i <= boxes@.len(),
                        moved@.len() == i,
                        forall|k: int|
                            0 <= k < i ==> moved@[k] == spec_translate_x(
                                #[trigger] boxes@[k],
                                x,
                            ),
                    decreases boxes@.len() - i,
                {
                    let b = &boxes[i];
                    moved.push(
                        Rect::new_from_x_y(add_clamped(b.x(), x), b.y(), b.width, b.height),
                    );
                    i = i + 1;
                }
                platform.bounding_boxes = moved;
            },
            Obstacle::Barrier(barrier) => {
                barrier.image.move_horizontally(x);
            },
        }
    }

    /// The rightmost x-coordinate of the obstacle.
    pub fn right(&self) -> (r: i16)
        ensures
            r == spec_obstacle_right(*self),
    {
        match self {
            Obstacle::Platform(platform) => {
                if platform.bounding_boxes.len() == 0 {
                    0
                } else {
                    let b = &platform.bounding_boxes[platform.bounding_boxes.len() - 1];
                    add_clamped(b.x(), b.width)
                }
            },
            Obstacle::Barrier(barrier) => barrier.image.right(),
        }
    }
}

/// The cumulative width of the first `i` sprites, each step saturating
/// at the `i16` bounds as the drawing cursor does.
pub open spec fn spec_sprite_offset(sprites: Seq<Cell>, i: int) -> i16
    decreases i,
{
    if i <= 0 {
        0
    } else {
        clamp_i16(spec_sprite_offset(sprites, i - 1) + sprites[i - 1].frame.w) as i16
    }
}

/// The rightmost edge over a whole obstacle list; 0 when the list is
/// empty.
pub open spec fn spec_rightmost(obstacles: Seq<Obstacle>) -> int
    decreases obstacles.len(),
{
    if obstacles.len() == 0 {
        0
    } else if obstacles.len() == 1 {
        spec_obstacle_right(obstacles[0])
    } else {
        let rest = spec_rightmost(obstacles.drop_last());
        let last = spec_obstacle_right(obstacles.last());
        if last >= rest {
            last
        } else {
            rest
        }
    }
}

/// The collision boxes an obstacle exposes.
pub open spec fn spec_boxes(o: Obstacle) -> Seq<Rect> {
    match o {
        Obstacle::Platform(p) => p.bounding_boxes@,
        Obstacle::Barrier(b) => seq![b.image.bounding_box],
    }
}

/// All boxes of `o` lie within the horizontal band from `lo` to `hi`.
pub open spec fn spec_boxes_within(o: Obstacle, lo: int, hi: int) -> bool {
    forall|i: int|
        0 <= i < spec_boxes(o).len() ==> lo <= (#[trigger] spec_boxes(o)[i]).position.x
            && spec_right(spec_boxes(o)[i]) <= hi
}

/// Every box of `o` has a width between 0 and 2000 pixels.
pub open spec fn spec_box_sizes_wf(o: Obstacle) -> bool {
    forall|i: int|
        0 <= i < spec_boxes(o).len() ==> 0 <= (#[trigger] spec_boxes(o)[i]).width <= 2000
}

/// `a` stands entirely to the left of `b`: every box of `a` ends at or
/// before every box of `b` begins.
pub open spec fn spec_h_ordered(a: Obstacle, b: Obstacle) -> bool {
    forall|i: int, j: int|
        0 <= i < spec_boxes(a).len() && 0 <= j < spec_boxes(b).len() ==> spec_right(
            #[trigger] spec_boxes(a)[i],
        ) <= (#[trigger] spec_boxes(b)[j]).position.x
}

/// Every box of the obstacle starts within 2000 pixels of its right
/// edge, so an obstacle never stretches further than that.
pub open spec fn spec_compact(o: Obstacle) -> bool {
    forall|i: int|
        0 <= i < spec_boxes(o).len() ==> (#[trigger] spec_boxes(o)[i]).position.x
            >= spec_obstacle_right(o) - 2000
}

/// No box of `a` overlaps a box of `b` on the horizontal axis by more
/// than a touch.
pub open spec fn spec_h_disjoint(a: Obstacle, b: Obstacle) -> bool {
    forall|i: int, j: int|
        0 <= i < spec_boxes(a).len() && 0 <= j < spec_boxes(b).len() ==> {
            ||| spec_right(#[trigger] spec_boxes(a)[i]) <= (#[trigger] spec_boxes(b)[j]).position.x
            ||| spec_right(spec_boxes(b)[j]) <= spec_boxes(a)[i].position.x
        }
}

/// The draw commands an obstacle produces: each platform sprite at its
/// cumulative offset, or the barrier's whole image.
pub open spec fn spec_obstacle_cmds(o: Obstacle) -> Seq<DrawCommand> {
    match o {
        Obstacle::Platform(p) => Seq::new(
            p.sprites@.len(),
            |i: int|
                DrawCommand::Image {
                    image: p.image,
                    source: Rect {
                        position: Point { x: p.sprites@[i].frame.x, y: p.sprites@[i].frame.y },
                        width: p.sprites@[i].frame.w,
                        height: p.sprites@[i].frame.h,
                    },
                    destination: Rect {
                        position: Point {
                            x: clamp_i16(p.position.x + spec_sprite_offset(p.sprites@, i)) as i16,
                            y: p.position.y,
                        },
                        width: p.sprites@[i].frame.w,
                        height: p.sprites@[i].frame.h,
                    },
                },
        ),
        Obstacle::Barrier(b) => seq![
            DrawCommand::EntireImage { image: b.image.element, position: b.image.bounding_box.position },
        ],
    }
}

/// The draw commands of a whole obstacle list, in order.
pub open spec fn spec_draws_of(obstacles: Seq<Obstacle>) -> Seq<DrawCommand>
    decreases obstacles.len(),
{
    if obstacles.len() == 0 {
        Seq::empty()
    } else {
        spec_obstacle_cmds(obstacles[0]) + spec_draws_of(obstacles.drop_first())
    }
}

/// Drawing one more obstacle at the end appends its commands.
pub proof fn lemma_draws_of_push(obstacles: Seq<Obstacle>, o: Obstacle)
    ensures
        spec_draws_of(obstacles.push(o)) =~= spec_draws_of(obstacles) + spec_obstacle_cmds(o),
    decreases obstacles.len(),
{
    if obstacles.len() == 0 {
        assert(obstacles.push(o)[0] == o);
        assert(obstacles.push(o).drop_first() =~= Seq::<Obstacle>::empty());
        assert(spec_draws_of(Seq::<Obstacle>::empty()) =~= Seq::<DrawCommand>::empty());
    } else {
        assert(obstacles.push(o)[0] == obstacles[0]);
        assert(obstacles.push(o).drop_first() =~= obstacles.drop_first().push(o));
        lemma_draws_of_push(obstacles.drop_first(), o);
    }
}

/// The character after the collision with `o` is resolved: unchanged if
/// they do not touch, otherwise with the collision's event applied.
pub open spec fn spec_apply_collision(o: Obstacle, boy: RedHatBoy) -> RedHatBoy {
    match spec_collision_event(o, boy) {
        Some(event) => RedHatBoy {
            state_machine: spec_transition(boy.state_machine, event),
            sprite_sheet: boy.sprite_sheet,
            image: boy.image,
        },
        None => boy,
    }
}

/// The character after colliding with every obstacle in the list, in
/// order.
pub open spec fn spec_collide_all(obstacles: Seq<Obstacle>, boy: RedHatBoy) -> RedHatBoy
    decreases obstacles.len(),
{
    if obstacles.len() == 0 {
        boy
    } else {
        spec_collide_all(obstacles.drop_first(), spec_apply_collision(obstacles[0], boy))
    }
}

/// Folding one more obstacle onto the end of the list applies its
/// collision last.
pub proof fn lemma_collide_all_push(obstacles: Seq<Obstacle>, o: Obstacle, boy: RedHatBoy)
    ensures
        spec_collide_all(obstacles.push(o), boy) == spec_apply_collision(
            o,
            spec_collide_all(obstacles, boy),
        ),
    decreases obstacles.len(),
{
    if obstacles.len() == 0 {
        assert(obstacles.push(o)[0] == o);
        assert(obstacles.push(o).drop_first() =~= Seq::<Obstacle>::empty());
        assert(spec_collide_all(obstacles.push(o), boy) == spec_collide_all(
            Seq::<Obstacle>::empty(),
            spec_apply_collision(o, boy),
        ));
        assert(spec_collide_all(Seq::<Obstacle>::empty(), spec_apply_collision(o, boy))
            == spec_apply_collision(o, boy));
        assert(spec_collide_all(obstacles, boy) == boy);
    } else {
        assert(obstacles.push(o)[0] == obstacles[0]);
        assert(obstacles.push(o).drop_first() =~= obstacles.drop_first().push(o));
        lemma_collide_all_push(obstacles.drop_first(), o, spec_apply_collision(obstacles[0], boy));
        assert(spec_collide_all(obstacles.push(o), boy) == spec_collide_all(
            obstacles.drop_first().push(o),
            spec_apply_collision(obstacles[0], boy),
        ));
        assert(spec_collide_all(obstacles, boy) == spec_collide_all(
            obstacles.drop_first(),
            spec_apply_collision(obstacles[0], boy),
        ));
    }
}

/// Resolving collisions never changes the character's assets and keeps
/// it well-formed.
pub proof fn lemma_collide_all_wf(obstacles: Seq<Obstacle>, boy: RedHatBoy)
    requires
        boy.wf(),
    ensures
        spec_collide_all(obstacles, boy).wf(),
        spec_collide_all(obstacles, boy).sprite_sheet == boy.sprite_sheet,
        spec_collide_all(obstacles, boy).image == boy.image,
    decreases obstacles.len(),
{
    if obstacles.len() > 0 {
        let boy1 = spec_apply_collision(obstacles[0], boy);
        match spec_collision_event(obstacles[0], boy) {
            Some(event) => {
                crate::red_hat_boy::lemma_transition_preserves_wf(boy.state_machine, event);
            },
            None => {},
        }
        lemma_collide_all_wf(obstacles.drop_first(), boy1);
    }
}

/// Resolving collisions never moves the character horizontally.
pub proof fn lemma_collide_all_preserves_x(obstacles: Seq<Obstacle>, boy: RedHatBoy)
    ensures
        spec_context(spec_collide_all(obstacles, boy).state_machine).position.x == spec_context(
            boy.state_machine,
        ).position.x,
    decreases obstacles.len(),
{
    if obstacles.len() > 0 {
        let boy1 = spec_apply_collision(obstacles[0], boy);
        match spec_collision_event(obstacles[0], boy) {
            Some(event) => {
                crate::red_hat_boy::lemma_transition_preserves_x(boy.state_machine, event);
            },
            None => {},
        }
        lemma_collide_all_preserves_x(obstacles.drop_first(), boy1);
    }
}

/// A character that is not rising onto a platform from above is knocked
/// out by any contact: if it touches `o` while not moving downward, and
/// it is running, sliding or jumping, the collision leaves it Falling.
pub proof fn lemma_contact_while_not_falling_knocks_out(o: Obstacle, boy: RedHatBoy)
    requires
        spec_collision_event(o, boy) is Some,
        spec_context(boy.state_machine).velocity.y <= 0,
        boy.state_machine is Running || boy.state_machine is Sliding || boy.state_machine
            is Jumping,
    ensures
        spec_apply_collision(o, boy).state_machine is Falling,
{
    assert(spec_collision_event(o, boy) == Some(Event::KnockOut));
}

/// An ordered pair of obstacles does not overlap.
pub proof fn lemma_ordered_disjoint(a: Obstacle, b: Obstacle)
    requires
        spec_h_ordered(a, b),
    ensures
        spec_h_disjoint(a, b),
{
}

/// Of two ordered obstacles, the left one's right edge comes first.
pub proof fn lemma_ordered_right_mono(a: Obstacle, b: Obstacle)
    requires
        spec_h_ordered(a, b),
        spec_box_sizes_wf(b),
        spec_boxes(a).len() > 0,
        spec_boxes(b).len() > 0,
    ensures
        spec_obstacle_right(a) <= spec_obstacle_right(b),
{
    let la = spec_boxes(a).len() - 1;
    let lb = spec_boxes(b).len() - 1;
    assert(spec_right(spec_boxes(a)[la]) <= spec_boxes(b)[lb].position.x);
    assert(spec_boxes(b)[lb].width >= 0);
}

/// A small leftward shift of an on-screen obstacle is exact: no box
/// reaches the saturation bounds of `i16`.
pub proof fn lemma_small_move_exact(a: Obstacle, b: Obstacle, dx: i16)
    requires
        spec_moved(a, b, dx),
        spec_boxes_within(a, -32000, 30000),
        spec_box_sizes_wf(a),
        -100 <= dx <= 0,
    ensures
        spec_boxes(b).len() == spec_boxes(a).len(),
        forall|i: int|
            0 <= i < spec_boxes(a).len() ==> #[trigger] spec_boxes(b)[i] == (Rect {
                position: Point {
                    x: (spec_boxes(a)[i].position.x + dx) as i16,
                    y: spec_boxes(a)[i].position.y,
                },
                width: spec_boxes(a)[i].width,
                height: spec_boxes(a)[i].height,
            }),
        spec_boxes(a).len() > 0 ==> spec_obstacle_right(b) == spec_obstacle_right(a) + dx,
        spec_boxes_within(b, -32100, 30000),
        spec_box_sizes_wf(b),
        spec_compact(a) && spec_boxes(a).len() > 0 ==> spec_compact(b),
{
    match (a, b) {
        (Obstacle::Platform(pa), Obstacle::Platform(pb)) => {
            assert forall|i: int| 0 <= i < spec_boxes(a).len() implies #[trigger] spec_boxes(
                b,
            )[i] == (Rect {
                position: Point {
                    x: (spec_boxes(a)[i].position.x + dx) as i16,
                    y: spec_boxes(a)[i].position.y,
                },
                width: spec_boxes(a)[i].width,
                height: spec_boxes(a)[i].height,
            }) by {
                assert(pb.bounding_boxes@[i] == spec_translate_x(pa.bounding_boxes@[i], dx));
                assert(-32000 <= pa.bounding_boxes@[i].position.x);
                assert(spec_right(pa.bounding_boxes@[i]) <= 30000);
            }
        },
        (Obstacle::Barrier(ba), Obstacle::Barrier(bb)) => {
            assert(spec_boxes(a)[0] == ba.image.bounding_box);
            assert(spec_boxes(b)[0] == bb.image.bounding_box);
            assert(bb.image.bounding_box == spec_translate_x(ba.image.bounding_box, dx));
            assert(-32000 <= ba.image.bounding_box.position.x);
            assert(spec_right(ba.image.bounding_box) <= 30000);
            assert(0 <= ba.image.bounding_box.width <= 2000);
        },
        _ => {},
    }
}

/// Shifting two ordered obstacles by the same exact step keeps them
/// ordered.
pub proof fn lemma_move_preserves_order(a1: Obstacle, a2: Obstacle, b1: Obstacle, b2: Obstacle, dx: i16)
    requires
        spec_h_ordered(a1, a2),
        spec_moved(a1, b1, dx),
        spec_moved(a2, b2, dx),
        spec_boxes_within(a1, -32000, 30000),
        spec_boxes_within(a2, -32000, 30000),
        spec_box_sizes_wf(a1),
        spec_box_sizes_wf(a2),
        -100 <= dx <= 0,
    ensures
        spec_h_ordered(b1, b2),
{
    lemma_small_move_exact(a1, b1, dx);
    lemma_small_move_exact(a2, b2, dx);
}

/// The rightmost x-coordinate reached by any obstacle in the list.
pub fn rightmost(obstacle_list: &Vec<Obstacle>) -> (r: i16)
    ensures
        r == spec_rightmost(obstacle_list@),
        i16::MIN <= spec_rightmost(obstacle_list@) <= i16::MAX,
{
    let mut r: i16 = 0;
    let mut any: bool = false;
    let mut i: usize = 0;
    while i < obstacle_list.len()
        invariant
            i <= obstacle_list@.len(),
            any == (i > 0),
            any ==> r == spec_rightmost(obstacle_list@.take(i as int)),
            !any ==> r == 0,
        decreases obstacle_list@.len() - i,
    {
        let edge = obstacle_list[i].right();
        proof {
            let prefix = obstacle_list@.take(i as int + 1);
            assert(prefix.last() == obstacle_list@[i as int]);
            assert(prefix.drop_last() =~= obstacle_list@.take(i as int));
        }
        if !any || edge > r {
            r = edge;
        }
        any = true;
        i = i + 1;
    }
    proof {
        assert(obstacle_list@.take(obstacle_list@.len() as int) =~= obstacle_list@);
    }
    r
}

} // verus!
