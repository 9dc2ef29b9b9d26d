//! The game: a welcome screen, the maze, and the screens for a won and a
//! lost game. Each step takes what the player did and the time, and returns
//! the screen to show and the sound to play.

use vstd::prelude::*;
use crate::animated_sprite::AnimatedSprite;
use crate::canvas::lemma_place_of_index;
use crate::enemy::{projection, sprite_pixel, Enemy, CATCH_DISTANCE};
use crate::fixed::{div_toward_zero, toward_zero, UNIT};
use crate::input::Keys;
use crate::map::{cell_at, cell_index, GridMap, GOAL};
use crate::player::Player;
use crate::renderer::{minimap_pixel, Renderer};
use crate::texture::lemma_index_in_area;
use crate::trig::{wrap, wrap_angle, TrigTable, QUARTER_TURN};
use crate::ui::{
    fps_text, screen_view, shown, text_pixel, FPS_BACKGROUND, FPS_COLOR, FPS_MARGIN, FPS_SCALE, UI,
};

verus! {

/// The time in milliseconds that must pass between two footstep sounds.
pub const STEP_INTERVAL: u64 = 500;

/// The time in milliseconds after which the frame counter is read.
pub const FPS_INTERVAL: u64 = 1000;

/// What the game is showing.
#[derive(Clone, Copy, Debug, PartialEq, Eq, Structural)]
pub enum State {
    Welcome,
    Playing,
    Victory,
    GameOver,
}

/// A sound for the caller to play.
#[derive(Clone, Copy, Debug, PartialEq, Eq, Structural)]
pub enum Sound {
    BackgroundMusic,
    Footstep,
    Victory,
    GameOver,
}

/// What the player did since the last step.
#[derive(Clone, Copy, Debug, PartialEq, Eq, Structural)]
pub struct Input {
    /// The steering keys that are held down.
    pub keys: Keys,
    /// Whether the space bar is held down.
    pub space: bool,
    /// The screen column of the mouse pointer, if it is over the window.
    pub mouse_x: Option<i32>,
}

/// What a step of the game hands back: the screen to show, if one could be
/// drawn, and the sound to play, if any.
pub struct Frame {
    pub screen: Option<Vec<u32>>,
    pub sound: Option<Sound>,
}

/// The distance covered in `dt` milliseconds at two cells a second, and no
/// more than 32 bits hold.
pub open spec fn move_speed(dt: int) -> int {
    if (2 * UNIT * dt) / 1000 > i32::MAX {
        i32::MAX as int
    } else {
        (2 * UNIT * dt) / 1000
    }
}

/// The turn that a mouse pointer in column `mouse_x` of a screen `width`
/// columns wide asks for in `dt` milliseconds: a thousandth of a radian for
/// each column off the middle and each second, rounded towards zero.
pub open spec fn mouse_turn(mouse_x: int, width: int, dt: int) -> int {
    toward_zero((mouse_x - width / 2) * dt * 573, 100_000)
}

/// The player after `dt` milliseconds of `input` on a screen `width` columns
/// wide: a step forward, back, to the left and to the right for the keys
/// held, in this order and each unless a wall is in the way, then a turn to
/// where the mouse points.
pub open spec fn steered(
    player: Player,
    grid: Seq<Seq<char>>,
    trig: &TrigTable,
    input: Input,
    width: int,
    dt: int,
) -> Player {
    let speed = move_speed(dt);
    let forward = if input.keys.w {
        player.stepped(grid, player.target(trig, player.angle as int, speed))
    } else {
        player
    };
    let back = if input.keys.s {
        forward.stepped(grid, forward.target(trig, forward.angle as int, -speed))
    } else {
        forward
    };
    let left = if input.keys.a {
        back.stepped(grid, back.target(trig, back.angle - QUARTER_TURN, speed))
    } else {
        back
    };
    let right = if input.keys.d {
        left.stepped(grid, left.target(trig, left.angle + QUARTER_TURN, speed))
    } else {
        left
    };
    match input.mouse_x {
        Some(x) => Player {
            angle: wrap_angle(right.angle + mouse_turn(x as int, width, dt)) as u32,
            ..right
        },
        None => right,
    }
}

/// Whether a footstep is to be heard: a steering key is held, and the last
/// footstep is at least `STEP_INTERVAL` back.
pub open spec fn footstep_due(input: Input, last_step_time: u64, now: u64) -> bool {
    (input.keys.w || input.keys.s || input.keys.a || input.keys.d) && now - last_step_time
        >= STEP_INTERVAL
}

/// The whole of a game.
pub struct GameState {
    pub map: GridMap,
    pub player: Player,
    pub enemy: Enemy,
    pub renderer: Renderer,
    pub trig: TrigTable,
    pub ui: UI,
    pub current_state: State,
    pub last_frame_time: u64,
    pub fps_counter: u32,
    pub fps: u32,
    pub last_step_time: u64,
    pub victory_sound_played: bool,
    pub game_over_sound_played: bool,
    pub animated_sprite: AnimatedSprite,
}

impl GameState {
    /// The depth buffer of the view.
    pub open spec fn depth(self) -> Seq<u64> {
        Seq::new(
            self.renderer@.width as nat,
            |column: int|
                self.renderer@.column_depth(self.map@, &self.trig, self.player, column) as u64,
        )
    }

    /// The colour of the pixel in `column` and `row` of the game's picture:
    /// the view of the maze, the minimap over it, then the enemy, the frame
    /// counter and the animated sprite.
    pub open spec fn pixel(self, column: int, row: int) -> u32 {
        let width = self.renderer@.width;
        let height = self.renderer@.height;
        let view = self.renderer@.pixel(self.map@, &self.trig, self.player, column, row) as u32;
        let mapped = minimap_pixel(
            self.map@,
            self.renderer@.minimap_size,
            self.player,
            column,
            row,
            view,
        );
        let haunted = match projection(
            &self.trig,
            self.player,
            self.enemy.x as int,
            self.enemy.y as int,
            width,
            height,
        ) {
            Some(sprite) => sprite_pixel(
                self.enemy.texture@,
                self.depth(),
                sprite,
                width,
                height,
                column,
                row,
                mapped,
            ),
            None => mapped,
        };
        let counted = text_pixel(
            fps_text(self.fps as nat),
            width - fps_text(self.fps as nat).len() * 8 * FPS_SCALE - FPS_MARGIN,
            FPS_MARGIN as int,
            FPS_COLOR,
            FPS_BACKGROUND,
            FPS_SCALE as int,
            column,
            row,
            haunted,
        );
        self.animated_sprite.pixel(width, height, column, row, counted)
    }

    /// Whether `screen` holds the game's picture, row after row.
    pub open spec fn is_picture(self, screen: Seq<u32>) -> bool {
        &&& screen.len() == self.renderer@.width * self.renderer@.height
        &&& forall|column: int, row: int|
            0 <= column < self.renderer@.width && 0 <= row < self.renderer@.height
                ==> #[trigger] screen[row * self.renderer@.width + column] == self.pixel(
                column,
                row,
            )
    }

    /// Whether the player stands in the goal cell.
    pub open spec fn at_goal(self) -> bool {
        cell_at(self.map@, cell_index(self.player.x as int), cell_index(self.player.y as int))
            == GOAL
    }

    /// Whether the enemy has caught the player.
    pub open spec fn caught(self) -> bool {
        crate::enemy::separation(
            self.enemy.x as int,
            self.enemy.y as int,
            self.player.x as int,
            self.player.y as int,
        ) < CATCH_DISTANCE
    }

    /// The time in milliseconds since the last frame.
    pub open spec fn elapsed(self, now: u64) -> int {
        if now >= self.last_frame_time {
            now - self.last_frame_time
        } else {
            0
        }
    }

    /// That time, cut to what 32 bits hold.
    pub open spec fn frame_time(self, now: u64) -> int {
        if self.elapsed(now) > u32::MAX {
            u32::MAX as int
        } else {
            self.elapsed(now)
        }
    }

    /// The game once the player has moved as `input` asks and the animated
    /// sprite has moved on with the time.
    pub open spec fn moved(self, input: Input, now: u64) -> GameState {
        GameState {
            player: steered(
                self.player,
                self.map@,
                &self.trig,
                input,
                self.renderer@.width,
                self.frame_time(now),
            ),
            last_step_time: if footstep_due(input, self.last_step_time, now) {
                now
            } else {
                self.last_step_time
            },
            animated_sprite: self.animated_sprite.advanced(now),
            ..self
        }
    }

    /// The game after a frame of play: the player has moved, the frame is
    /// counted, the count is read and set back if the frame took a second or
    /// more, and the game is won if the player stands on the goal, or else
    /// lost if the enemy has caught it.
    pub open spec fn played(self, input: Input, now: u64) -> GameState {
        let moved = self.moved(input, now);
        let counted = if moved.fps_counter < u32::MAX {
            (moved.fps_counter + 1) as u32
        } else {
            moved.fps_counter
        };
        GameState {
            fps: if self.elapsed(now) >= FPS_INTERVAL {
                counted
            } else {
                moved.fps
            },
            fps_counter: if self.elapsed(now) >= FPS_INTERVAL {
                0
            } else {
                counted
            },
            current_state: if moved.at_goal() {
                State::Victory
            } else if moved.caught() {
                State::GameOver
            } else {
                moved.current_state
            },
            last_frame_time: now,
            ..moved
        }
    }

    /// The game after one step at the time `now`.
    pub open spec fn stepped(self, input: Input, now: u64) -> GameState {
        match self.current_state {
            State::Welcome => GameState {
                current_state: if input.space {
                    State::Playing
                } else {
                    State::Welcome
                },
                ..self
            },
            State::Playing => self.played(input, now),
            State::Victory => if input.space {
                self.reset()
            } else {
                GameState { victory_sound_played: true, ..self }
            },
            State::GameOver => if input.space {
                self.reset()
            } else {
                GameState { game_over_sound_played: true, ..self }
            },
        }
    }

    /// The sound that one step at the time `now` asks for.
    pub open spec fn sound_of_step(self, input: Input, now: u64) -> Option<Sound> {
        match self.current_state {
            State::Welcome => if input.space {
                Some(Sound::BackgroundMusic)
            } else {
                None
            },
            State::Playing => if footstep_due(input, self.last_step_time, now) {
                Some(Sound::Footstep)
            } else {
                None
            },
            State::Victory => if self.victory_sound_played {
                None
            } else {
                Some(Sound::Victory)
            },
            State::GameOver => if self.game_over_sound_played {
                None
            } else {
                Some(Sound::GameOver)
            },
        }
    }

    /// The game started anew: player and enemy where they enter the maze, and
    /// the maze on the screen.
    pub open spec fn reset(self) -> GameState {
        GameState {
            player: Player::at_start(self.map@),
            enemy: if crate::map::occurs(self.map@, crate::map::ENEMY_START) {
                Enemy {
                    x: crate::map::first_centre(self.map@, crate::map::ENEMY_START).0 as i32,
                    y: crate::map::first_centre(self.map@, crate::map::ENEMY_START).1 as i32,
                    speed: 0,
                    texture: self.enemy.texture,
                }
            } else {
                self.enemy
            },
            current_state: State::Playing,
            victory_sound_played: false,
            game_over_sound_played: false,
            ..self
        }
    }

    /// A game on the welcome screen, the player and the enemy at their
    /// starts in `map`; `None` if the map has no start for the enemy.
    pub fn new(
        map: GridMap,
        trig: TrigTable,
        renderer: Renderer,
        enemy_texture: crate::texture::Texture,
        ui: UI,
        animated_sprite: AnimatedSprite,
        now: u64,
    ) -> (game: Option<GameState>)
        ensures
            game is None <==> !crate::map::occurs(map@, crate::map::ENEMY_START),
            game is Some ==> game.unwrap() == (GameState {
                map,
                player: Player::at_start(map@),
                enemy: Enemy {
                    x: crate::map::first_centre(map@, crate::map::ENEMY_START).0 as i32,
                    y: crate::map::first_centre(map@, crate::map::ENEMY_START).1 as i32,
                    texture: enemy_texture,
                    speed: 0,
                },
                renderer,
                trig,
                ui,
                current_state: State::Welcome,
                last_frame_time: now,
                fps_counter: 0,
                fps: 0,
                last_step_time: now,
                victory_sound_played: false,
                game_over_sound_played: false,
                animated_sprite,
            }),
    {
        let player = Player::new(&map);
        match Enemy::new(&map, enemy_texture) {
            None => None,
            Some(enemy) => Some(
                GameState {
                    map,
                    player,
                    enemy,
                    renderer,
                    trig,
                    ui,
                    current_state: State::Welcome,
                    last_frame_time: now,
                    fps_counter: 0,
                    fps: 0,
                    last_step_time: now,
                    victory_sound_played: false,
                    game_over_sound_played: false,
                    animated_sprite,
                },
            ),
        }
    }

    /// Moves and turns the player as `input` asks for `dt` milliseconds, and
    /// says whether a footstep is to be heard.
    pub fn handle_input(&mut self, input: &Input, dt: u32, now: u64) -> (footstep: bool)
        ensures
            footstep == footstep_due(*input, old(self).last_step_time, now),
            *final(self) == (GameState {
                player: steered(
                    old(self).player,
                    old(self).map@,
                    &old(self).trig,
                    *input,
                    old(self).renderer@.width,
                    dt as int,
                ),
                last_step_time: if footstep {
                    now
                } else {
                    old(self).last_step_time
                },
                ..*old(self)
            }),
    {
        let player = steer(
            self.player,
            &self.map,
            &self.trig,
            input,
            self.renderer.width(),
            dt,
        );
        self.player = player;
        let walking = input.keys.w || input.keys.s || input.keys.a || input.keys.d;
        if walking && now >= self.last_step_time && now - self.last_step_time >= STEP_INTERVAL {
            self.last_step_time = now;
            true
        } else {
            false
        }
    }

    /// Lets the time pass to `now`: the animated sprite moves on.
    pub fn update(&mut self, dt: u32, now: u64)
        ensures
            *final(self) == (GameState {
                animated_sprite: old(self).animated_sprite.advanced(now),
                ..*old(self)
            }),
    {
        self.enemy.update(&self.map, &self.player, dt);
        self.animated_sprite.update(now);
    }

    /// The game's picture: the pixels of the screen, row after row.
    pub fn render(&self) -> (buffer: Vec<u32>)
        ensures
            self.is_picture(buffer@),
    {
        let width = self.renderer.width();
        let height = self.renderer.height();
        let (mut buffer, z_buffer) = self.renderer.render_3d(&self.map, &self.player, &self.trig);
        let ghost view = buffer@;
        assert(z_buffer@ =~= self.depth());
        self.renderer.render_minimap(&self.map, &self.player, &mut buffer);
        let ghost mapped = buffer@;
        self.enemy.render(&mut buffer, width, height, &self.player, &self.trig, &z_buffer);
        let ghost haunted = buffer@;
        self.ui.render_fps(self.fps, &mut buffer, width, height);
        let ghost counted = buffer@;
        self.animated_sprite.render(&mut buffer, width, height);
        assert forall|column: int, row: int|
            0 <= column < width && 0 <= row < height implies #[trigger] buffer[row * width
            + column] == self.pixel(column, row) by {
            lemma_index_in_area(column, row, width as int, height as int);
            lemma_place_of_index(column, row, width as int);
            let i = row * width + column;
            assert(view[i] == self.renderer@.pixel(
                self.map@,
                &self.trig,
                self.player,
                column,
                row,
            ));
            assert(mapped[i] == minimap_pixel(
                self.map@,
                self.renderer@.minimap_size,
                self.player,
                column,
                row,
                view[i],
            ));
        }
        buffer
    }

    /// One frame of play at the time `now`: the player moves as `input`
    /// asks, the picture is drawn, and the game is checked for its end.
    /// Returns the picture, and a footstep if one is to be heard.
    pub fn play(&mut self, input: &Input, now: u64) -> (frame: Frame)
        ensures
            *final(self) == old(self).played(*input, now),
            frame.sound == (if footstep_due(*input, old(self).last_step_time, now) {
                Some(Sound::Footstep)
            } else {
                None
            }),
            frame.screen is Some,
            old(self).moved(*input, now).is_picture(frame.screen.unwrap()@),
    {
        let elapsed: u64 = if now >= self.last_frame_time {
            now - self.last_frame_time
        } else {
            0
        };
        let dt: u32 = if elapsed > u32::MAX as u64 {
            u32::MAX
        } else {
            elapsed as u32
        };
        let footstep = self.handle_input(input, dt, now);
        self.update(dt, now);
        let screen = self.render();
        if self.fps_counter < u32::MAX {
            self.fps_counter = self.fps_counter + 1;
        }
        if elapsed >= FPS_INTERVAL {
            self.fps = self.fps_counter;
            self.fps_counter = 0;
        }
        if self.map.is_player_at_goal(&self.player) {
            self.current_state = State::Victory;
        } else if self.enemy.has_caught_player(&self.player) {
            self.current_state = State::GameOver;
        }
        self.last_frame_time = now;
        Frame {
            screen: Some(screen),
            sound: if footstep {
                Some(Sound::Footstep)
            } else {
                None
            },
        }
    }

    /// Starts the game anew.
    pub fn reset_game(&mut self)
        ensures
            *final(self) == old(self).reset(),
    {
        self.player = Player::new(&self.map);
        match self.map.find_enemy_start() {
            Some((x, y)) => {
                self.enemy.x = x;
                self.enemy.y = y;
                self.enemy.speed = 0;
            },
            None => {},
        }
        self.current_state = State::Playing;
        self.victory_sound_played = false;
        self.game_over_sound_played = false;
    }

    /// One frame of the welcome screen: returns its picture and, if the
    /// space bar is held, starts the game and asks for the music.
    pub fn show_welcome_screen(&mut self, space: bool) -> (frame: Frame)
        ensures
            *final(self) == (GameState {
                current_state: if space {
                    State::Playing
                } else {
                    old(self).current_state
                },
                ..*old(self)
            }),
            screen_view(frame.screen) == shown(
                old(self).ui.welcome_image@,
                old(self).renderer@.width,
                old(self).renderer@.height,
            ),
            frame.sound == (if space {
                Some(Sound::BackgroundMusic)
            } else {
                None
            }),
    {
        let screen = self.ui.show_welcome_screen(self.renderer.width(), self.renderer.height());
        if space {
            self.current_state = State::Playing;
            Frame { screen, sound: Some(Sound::BackgroundMusic) }
        } else {
            Frame { screen, sound: None }
        }
    }

    /// One frame of the screen for a won game: returns its picture and, the
    /// first time, asks for the sound of victory; the space bar starts the
    /// game anew.
    pub fn show_victory_screen(&mut self, space: bool) -> (frame: Frame)
        ensures
            *final(self) == (if space {
                old(self).reset()
            } else {
                GameState { victory_sound_played: true, ..*old(self) }
            }),
            screen_view(frame.screen) == shown(
                old(self).ui.victory_image@,
                old(self).renderer@.width,
                old(self).renderer@.height,
            ),
            frame.sound == (if old(self).victory_sound_played {
                None
            } else {
                Some(Sound::Victory)
            }),
    {
        let screen = self.ui.show_victory_screen(self.renderer.width(), self.renderer.height());
        let sound = if self.victory_sound_played {
            None
        } else {
            Some(Sound::Victory)
        };
        self.victory_sound_played = true;
        if space {
            self.reset_game();
        }
        Frame { screen, sound }
    }

    /// One frame of the screen for a lost game: returns its picture and, the
    /// first time, asks for the sound of defeat; the space bar starts the
    /// game anew.
    pub fn show_game_over_screen(&mut self, space: bool) -> (frame: Frame)
        ensures
            *final(self) == (if space {
                old(self).reset()
            } else {
                GameState { game_over_sound_played: true, ..*old(self) }
            }),
            screen_view(frame.screen) == shown(
                old(self).ui.game_over_image@,
                old(self).renderer@.width,
                old(self).renderer@.height,
            ),
            frame.sound == (if old(self).game_over_sound_played {
                None
            } else {
                Some(Sound::GameOver)
            }),
    {
        let screen = self.ui.show_game_over_screen(self.renderer.width(), self.renderer.height());
        let sound = if self.game_over_sound_played {
            None
        } else {
            Some(Sound::GameOver)
        };
        self.game_over_sound_played = true;
        if space {
            self.reset_game();
        }
        Frame { screen, sound }
    }

    /// One step of the game at the time `now`: a frame of whatever the game
    /// is showing.
    pub fn step(&mut self, input: &Input, now: u64) -> (frame: Frame)
        ensures
            *final(self) == old(self).stepped(*input, now),
            frame.sound == old(self).sound_of_step(*input, now),
            old(self).current_state == State::Welcome ==> screen_view(frame.screen) == shown(
                old(self).ui.welcome_image@,
                old(self).renderer@.width,
                old(self).renderer@.height,
            ),
            old(self).current_state == State::Victory ==> screen_view(frame.screen) == shown(
                old(self).ui.victory_image@,
                old(self).renderer@.width,
                old(self).renderer@.height,
            ),
            old(self).current_state == State::GameOver ==> screen_view(frame.screen) == shown(
                old(self).ui.game_over_image@,
                old(self).renderer@.width,
                old(self).renderer@.height,
            ),
            old(self).current_state == State::Playing ==> frame.screen is Some && old(self).moved(
                *input,
                now,
            ).is_picture(frame.screen.unwrap()@),
    {
        match self.current_state {
            State::Welcome => self.show_welcome_screen(input.space),
            State::Playing => self.play(input, now),
            State::Victory => self.show_victory_screen(input.space),
            State::GameOver => self.show_game_over_screen(input.space),
        }
    }
}

/// The player after `dt` milliseconds of `input` on a screen `width` columns
/// wide.
pub fn steer(
    player: Player,
    map: &GridMap,
    trig: &TrigTable,
    input: &Input,
    width: usize,
    dt: u32,
) -> (moved: Player)
    ensures
        moved == steered(player, map@, trig, *input, width as int, dt as int),
{
    let covered: u64 = (2 * 65536 * dt as u64) / 1000;
    let speed: i32 = if covered > i32::MAX as u64 {
        i32::MAX
    } else {
        covered as i32
    };
    assert(speed == move_speed(dt as int));
    let mut moved = player;
    if input.keys.w {
        moved.move_forward(map, trig, speed);
    }
    if input.keys.s {
        moved.move_backward(map, trig, speed);
    }
    if input.keys.a {
        moved.strafe_left(map, trig, speed);
    }
    if input.keys.d {
        moved.strafe_right(map, trig, speed);
    }
    match input.mouse_x {
        Some(x) => {
            let off: i128 = x as i128 - (width / 2) as i128;
            assert(-0x1_0000_0000_0000_0000_0000_0000_0000 <= off * dt * 573
                <= 0x1_0000_0000_0000_0000_0000_0000_0000) by (nonlinear_arith)
                requires
                    -0x1_0000_0000_0000_0000 <= off <= 0x1_0000_0000_0000_0000,
                    0 <= dt <= 0xffff_ffff,
            ;
            assert(-0x1_0000_0000_0000_0000_0000_0000 <= off * dt
                <= 0x1_0000_0000_0000_0000_0000_0000) by (nonlinear_arith)
                requires
                    -0x1_0000_0000_0000_0000 <= off <= 0x1_0000_0000_0000_0000,
                    0 <= dt <= 0xffff_ffff,
            ;
            let turn: i128 = div_toward_zero(off * dt as i128 * 573, 100_000);
            moved.angle = wrap(moved.angle as i128 + turn);
        },
        None => {},
    }
    moved
}

} // verus!
