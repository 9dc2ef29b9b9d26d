//! The enemy and the sprite projector.
//!
//! A sprite is placed on the screen by its bearing from the viewer and
//! scaled by its distance, like a wall slice. Column by column it is drawn
//! only where the depth buffer holds a greater distance than its own, so that
//! nearer walls hide it.

use vstd::prelude::*;
use crate::canvas::{clamp_to, lemma_index_of_place, paint_region, painted, Layer, Region};
use crate::color::{alpha, alpha_of};
use crate::fixed::{floor_sqrt, isqrt, UNIT};
use crate::map::{first_centre, occurs, GridMap, ENEMY_START};
use crate::player::Player;
use crate::texture::{Bitmap, Texture};
use crate::trig::{signed, signed_angle, TrigTable};

verus! {

/// A sprite no further away than this is not drawn: half a cell.
pub const NEAR_PLANE: u64 = 32_768;

/// The enemy has caught a player closer than this: three tenths of a cell.
pub const CATCH_DISTANCE: u64 = 19_661;

/// The distance between two points, rounded down.
pub open spec fn separation(ax: int, ay: int, bx: int, by: int) -> int {
    floor_sqrt((ax - bx) * (ax - bx) + (ay - by) * (ay - by))
}

/// Where a sprite appears on the screen.
#[derive(Clone, Copy, Debug, PartialEq, Eq, Structural)]
pub struct Projection {
    /// The distance from the viewer to the sprite.
    pub distance: u64,
    /// The sprite's bearing, measured from the view axis.
    pub turn: i32,
    /// The side of the square the sprite fills, in pixels.
    pub size: u128,
    /// The screen column of the sprite's middle.
    pub centre: usize,
}

/// Where the viewer `player` sees a sprite at `(x, y)` on a screen of the
/// given size, if it sees it at all: the sprite must be further away than
/// `NEAR_PLANE` and its bearing within half the field of view of the axis.
/// Its size falls with its distance as a wall's height does, and its middle
/// moves across the screen in proportion to its bearing.
pub open spec fn projection(
    trig: &TrigTable,
    player: Player,
    x: int,
    y: int,
    width: int,
    height: int,
) -> Option<Projection> {
    let distance = separation(x, y, player.x as int, player.y as int);
    let turn = signed_angle(trig.bearing_of(x - player.x, y - player.y) - player.angle);
    let half = player.fov as int / 2;
    if distance <= NEAR_PLANE || turn > half || turn < -half {
        None
    } else {
        Some(
            Projection {
                distance: distance as u64,
                turn: turn as i32,
                size: ((height * UNIT) / distance) as u128,
                centre: (if half == 0 {
                    width / 2
                } else {
                    ((turn + half) * width) / (2 * half)
                }) as usize,
            },
        )
    }
}

/// The colour of the pixel in `column` and `row` once a sprite is drawn over
/// the colour `under`. The sprite's texel is taken where the pixel lies on
/// the screen and within the sprite's square, the depth buffer holds a
/// greater distance for the column than the sprite's, and the texel is not
/// fully transparent; elsewhere the pixel keeps its colour.
pub open spec fn sprite_pixel(
    texture: Bitmap,
    depth: Seq<u64>,
    sprite: Projection,
    width: int,
    height: int,
    column: int,
    row: int,
    under: u32,
) -> u32 {
    let sx = column - sprite.centre + sprite.size / 2;
    let sy = row - height / 2 + sprite.size / 2;
    let texel = texture.texel(
        (sx * texture.width) / (sprite.size as int),
        (sy * texture.height) / (sprite.size as int),
    );
    if 0 <= column < width && 0 <= row < height && 0 <= sx < sprite.size && 0 <= sy < sprite.size
        && column < depth.len() && depth[column] > sprite.distance && alpha_of(texel) > 0 {
        texel
    } else {
        under
    }
}

/// A wall hides what is behind it: in a column for which the depth buffer
/// holds a distance no greater than the sprite's, the sprite changes no
/// pixel.
pub proof fn lemma_wall_hides_sprite(
    texture: Bitmap,
    depth: Seq<u64>,
    sprite: Projection,
    width: int,
    height: int,
    column: int,
)
    requires
        0 <= column < depth.len(),
        depth[column] <= sprite.distance,
    ensures
        forall|row: int, under: u32|
            sprite_pixel(texture, depth, sprite, width, height, column, row, under) == under,
{
}

/// The sprite as a layer over the screen.
struct SpriteLayer<'a> {
    texture: &'a Texture,
    depth: &'a Vec<u64>,
    sprite: Projection,
    width: usize,
    height: usize,
}

impl<'a> SpriteLayer<'a> {
    #[verifier::type_invariant]
    spec fn wf(&self) -> bool {
        self.sprite.size <= 0x2_0000_0000_0000_0000
    }
}

impl<'a> Layer for SpriteLayer<'a> {
    closed spec fn shade(&self, column: int, row: int, under: u32) -> u32 {
        sprite_pixel(
            self.texture@,
            self.depth@,
            self.sprite,
            self.width as int,
            self.height as int,
            column,
            row,
            under,
        )
    }

    fn paint(&self, column: usize, row: usize, under: u32) -> (color: u32) {
        proof {
            use_type_invariant(self.texture);
        }
        if column >= self.width || row >= self.height {
            return under;
        }
        proof {
            use_type_invariant(self);
        }
        let size = self.sprite.size;
        let half: i128 = (size / 2) as i128;
        let sx: i128 = column as i128 - self.sprite.centre as i128 + half;
        let sy: i128 = row as i128 - (self.height / 2) as i128 + half;
        if sx < 0 || sx >= size as i128 || sy < 0 || sy >= size as i128 {
            return under;
        }
        if column >= self.depth.len() || self.depth[column] <= self.sprite.distance {
            return under;
        }
        let tw: u128 = self.texture.width() as u128;
        let th: u128 = self.texture.height() as u128;
        assert(sx * tw <= 0x2_0000_0000_0000_0000 * 0xffff_ffff && sy * th
            <= 0x2_0000_0000_0000_0000 * 0xffff_ffff) by (nonlinear_arith)
            requires
                0 <= sx <= 0x2_0000_0000_0000_0000,
                0 <= sy <= 0x2_0000_0000_0000_0000,
                0 <= tw <= 0xffff_ffff,
                0 <= th <= 0xffff_ffff,
        ;
        let tx: u128 = (sx as u128 * tw) / size;
        let ty: u128 = (sy as u128 * th) / size;
        assert(tx <= tw && ty <= th) by (nonlinear_arith)
            requires
                tx == (sx * tw) / (size as int),
                ty == (sy * th) / (size as int),
                0 <= sx < size,
                0 <= sy < size,
                0 <= tw,
                0 <= th,
        ;
        let texel = self.texture.get_pixel(tx as u32, ty as u32);
        if alpha(texel) > 0 {
            texel
        } else {
            under
        }
    }
}

/// Where the viewer `player` sees a sprite at `(x, y)` on a screen of the
/// given size, if it sees it at all.
pub fn project_sprite(
    trig: &TrigTable,
    player: &Player,
    x: i32,
    y: i32,
    width: usize,
    height: usize,
) -> (sprite: Option<Projection>)
    ensures
        sprite == projection(trig, *player, x as int, y as int, width as int, height as int),
        sprite is Some ==> sprite.unwrap().size <= 2 * height && sprite.unwrap().centre <= width,
{
    let dx: i64 = x as i64 - player.x as i64;
    let dy: i64 = y as i64 - player.y as i64;
    assert(0 <= dx * dx <= 0x1_0000_0000 * 0x1_0000_0000 && 0 <= dy * dy <= 0x1_0000_0000
        * 0x1_0000_0000) by (nonlinear_arith)
        requires
            -0x1_0000_0000 <= dx <= 0x1_0000_0000,
            -0x1_0000_0000 <= dy <= 0x1_0000_0000,
    ;
    let distance: u64 = isqrt((dx as i128 * dx as i128 + dy as i128 * dy as i128) as u128);
    let turn: i32 = signed(trig.bearing(dx, dy) as i128 - player.angle as i128);
    let half: i32 = (player.fov / 2) as i32;
    if distance <= NEAR_PLANE || turn > half || turn < -half {
        return None;
    }
    let size: u128 = (height as u128 * 65536) / distance as u128;
    assert(size <= 2 * height) by (nonlinear_arith)
        requires
            size == (height * 65536) / (distance as int),
            distance > 32768,
            0 <= height,
    ;
    let centre: usize = if half == 0 {
        width / 2
    } else {
        let along: u128 = (turn as i64 + half as i64) as u128;
        let span: u128 = 2 * half as u128;
        assert(along * width <= 0xffff_ffff * 0xffff_ffff_ffff_ffff) by (nonlinear_arith)
            requires
                0 <= along <= 0xffff_ffff,
                0 <= width <= 0xffff_ffff_ffff_ffff,
        ;
        assert((along * width) / (span as int) <= width) by (nonlinear_arith)
            requires
                0 <= along <= span,
                0 < span,
                0 <= width,
        ;
        ((along * width as u128) / span) as usize
    };
    Some(Projection { distance, turn, size, centre })
}

/// The enemy: a sprite that stands in the maze.
pub struct Enemy {
    pub x: i32,
    pub y: i32,
    pub texture: Texture,
    pub speed: i32,
}

impl Enemy {
    /// An enemy at rest in the middle of the map's enemy cell, if it has
    /// one, drawn with `texture`.
    pub fn new(map: &GridMap, texture: Texture) -> (enemy: Option<Enemy>)
        ensures
            enemy is None <==> !occurs(map@, ENEMY_START),
            enemy is Some ==> enemy.unwrap() == (Enemy {
                x: first_centre(map@, ENEMY_START).0 as i32,
                y: first_centre(map@, ENEMY_START).1 as i32,
                texture,
                speed: 0,
            }),
    {
        match map.find_enemy_start() {
            Some((x, y)) => Some(Enemy { x, y, texture, speed: 0 }),
            None => None,
        }
    }

    /// Lets `dt` milliseconds pass. The enemy stays where it is.
    pub fn update(&mut self, map: &GridMap, player: &Player, dt: u32)
        ensures
            *final(self) == *old(self),
    {
    }

    /// Whether the player is within `CATCH_DISTANCE` of the enemy.
    pub fn has_caught_player(&self, player: &Player) -> (caught: bool)
        ensures
            caught == (separation(
                self.x as int,
                self.y as int,
                player.x as int,
                player.y as int,
            ) < CATCH_DISTANCE),
    {
        let dx: i64 = self.x as i64 - player.x as i64;
        let dy: i64 = self.y as i64 - player.y as i64;
        assert(0 <= dx * dx <= 0x1_0000_0000 * 0x1_0000_0000 && 0 <= dy * dy <= 0x1_0000_0000
            * 0x1_0000_0000) by (nonlinear_arith)
            requires
                -0x1_0000_0000 <= dx <= 0x1_0000_0000,
                -0x1_0000_0000 <= dy <= 0x1_0000_0000,
        ;
        isqrt((dx as i128 * dx as i128 + dy as i128 * dy as i128) as u128) < CATCH_DISTANCE
    }

    /// Draws the enemy as `player` sees it into `buffer`, which holds a
    /// screen of the given size row after row, behind the walls whose
    /// distances `z_buffer` holds column by column.
    pub fn render(
        &self,
        buffer: &mut Vec<u32>,
        width: usize,
        height: usize,
        player: &Player,
        trig: &TrigTable,
        z_buffer: &Vec<u64>,
    )
        ensures
            final(buffer).len() == old(buffer).len(),
            forall|i: int|
                0 <= i < old(buffer).len() ==> #[trigger] final(buffer)[i] == (match projection(
                    trig,
                    *player,
                    self.x as int,
                    self.y as int,
                    width as int,
                    height as int,
                ) {
                    Some(sprite) if width > 0 => sprite_pixel(
                        self.texture@,
                        z_buffer@,
                        sprite,
                        width as int,
                        height as int,
                        i % (width as int),
                        i / (width as int),
                        old(buffer)[i],
                    ),
                    _ => old(buffer)[i],
                }),
    {
        match project_sprite(trig, player, self.x, self.y, width, height) {
            Some(sprite) => {
                let layer = SpriteLayer {
                    texture: &self.texture,
                    depth: z_buffer,
                    sprite,
                    width,
                    height,
                };
                // The square that the sprite fills, cut to the screen.
                let half: i128 = (sprite.size / 2) as i128;
                let left: i128 = sprite.centre as i128 - half;
                let top: i128 = (height / 2) as i128 - half;
                let screen = Region {
                    left: clamp_to(left, width),
                    top: clamp_to(top, height),
                    right: clamp_to(left + sprite.size as i128, width),
                    bottom: clamp_to(top + sprite.size as i128, height),
                };
                paint_region(buffer, width, &layer, screen);
                assert forall|i: int|
                    0 <= i < old(buffer).len() && width > 0 implies #[trigger] buffer[i]
                    == sprite_pixel(
                    self.texture@,
                    z_buffer@,
                    sprite,
                    width as int,
                    height as int,
                    i % (width as int),
                    i / (width as int),
                    old(buffer)[i],
                ) by {
                    lemma_index_of_place(i, width as int);
                    assert(buffer[i] == painted(&layer, screen, width as int, i, old(buffer)[i]));
                }
            },
            None => {},
        }
    }
}

} // verus!
