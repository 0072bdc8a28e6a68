//! The rules of a side-scrolling game: a player falls and flaps its way
//! through the gaps of obstacles.
//!
//! What is kept here is what can be said in whole numbers: where the walls
//! and the gaps are, when the player hits a wall, how the score grows and
//! what a key means. Speeds and frame times are the caller's.

use bracket_lib::prelude::RandomNumberGenerator;
use vstd::prelude::*;

verus! {

/// The width of the screen, in columns.
pub const SCREEN_WIDTH: i32 = 80;

/// The height of the screen, in rows.
pub const SCREEN_HEIGHT: i32 = 50;

/// The first row in which the middle of a gap may be drawn.
pub const GAP_FROM: i32 = 10;

/// The row above which the middle of every gap is drawn.
pub const GAP_BELOW: i32 = 40;

/// The random number generator of `bracket_lib`. Nothing is known of what a
/// value of it holds.
#[verifier::external_type_specification]
#[verifier::external_body]
pub struct ExRandomNumberGenerator(RandomNumberGenerator);

/// `RandomNumberGenerator::new` makes a generator from a seed that the
/// machine supplies. Nothing is claimed of it.
pub assume_specification[ RandomNumberGenerator::new ]() -> (rng: RandomNumberGenerator)
;

/// `RandomNumberGenerator::range` draws a number that is at least `min` and
/// less than `max`, and nothing more is claimed of the number. It fails on
/// an empty range, which is left out.
#[verifier::external_body]
fn draw(rng: &mut RandomNumberGenerator, min: i32, max: i32) -> (drawn: i32)
    requires
        min < max,
    ensures
        min <= drawn < max,
{
    rng.range(min, max)
}

/// What the game is doing.
#[derive(Clone, Copy, Debug, PartialEq, Eq, Structural)]
pub enum GameMode {
    Menu,
    Playing,
    End,
}

/// The keys that mean something to the game.
#[derive(Clone, Copy, Debug, PartialEq, Eq, Structural)]
pub enum Key {
    Space,
    P,
    Q,
    Other,
}

/// What a key asks for in a menu.
#[derive(Clone, Copy, Debug, PartialEq, Eq, Structural)]
pub enum MenuChoice {
    /// Begin a new game.
    Play,
    /// Leave the program.
    Quit,
    /// Nothing.
    Stay,
}

/// What the key that is held, if any, asks for in a menu.
pub open spec fn spec_menu_choice(key: Option<Key>) -> MenuChoice {
    match key {
        Some(Key::P) => MenuChoice::Play,
        Some(Key::Q) => MenuChoice::Quit,
        _ => MenuChoice::Stay,
    }
}

#[verifier::when_used_as_spec(spec_menu_choice)]
pub fn menu_choice(key: Option<Key>) -> (choice: MenuChoice)
    ensures
        choice == spec_menu_choice(key),
{
    match key {
        Some(Key::P) => MenuChoice::Play,
        Some(Key::Q) => MenuChoice::Quit,
        _ => MenuChoice::Stay,
    }
}

/// Where the player is. The column counts the distance flown, the row
/// counts from the top of the screen.
#[derive(Clone, Copy, Debug, PartialEq, Eq, Structural)]
pub struct Player {
    pub x: i32,
    pub y: i32,
}

impl Player {
    pub fn new(x: i32, y: i32) -> (player: Player)
        ensures
            player == (Player { x, y }),
    {
        Player { x, y }
    }

    /// The player after one step: `drop` rows further down, but not above
    /// the top of the screen, and one column further on.
    pub open spec fn moved(self, drop: i32) -> Player {
        Player {
            x: (self.x + 1) as i32,
            y: if self.y + drop < 0 {
                0
            } else {
                (self.y + drop) as i32
            },
        }
    }

    /// Moves the player by one step. The numbers have to stay within 32
    /// bits.
    pub fn fall(&mut self, drop: i32)
        requires
            old(self).x < i32::MAX,
            i32::MIN <= old(self).y + drop <= i32::MAX,
        ensures
            *final(self) == old(self).moved(drop),
    {
        self.y = self.y + drop;
        self.x = self.x + 1;
        if self.y < 0 {
            self.y = 0;
        }
    }
}

/// Half of a size, rounded towards zero.
pub open spec fn half(size: int) -> int {
    if size >= 0 {
        size / 2
    } else {
        -((-size) / 2)
    }
}

/// The size of the gap of the obstacle that follows a score: 20 less the
/// score, and 2 at least.
pub open spec fn gap_size(score: int) -> int {
    if 20 - score < 2 {
        2
    } else {
        20 - score
    }
}

/// A number kept within the rows of the screen.
pub open spec fn on_screen(row: int) -> int {
    if row < 0 {
        0
    } else if row > SCREEN_HEIGHT {
        SCREEN_HEIGHT as int
    } else {
        row
    }
}

/// A wall across the screen with a gap in it.
#[derive(Clone, Copy, Debug, PartialEq, Eq, Structural)]
pub struct Obstacle {
    /// The column in which the wall stands.
    pub x: i32,
    /// The row of the middle of the gap.
    pub gap_y: i32,
    /// The height of the gap.
    pub size: i32,
}

impl Obstacle {
    /// The obstacle in column `x` that follows the score `score`, where
    /// `drawn` is the row that was drawn for its gap.
    pub open spec fn spec_with_gap(x: i32, score: i32, drawn: i32) -> Obstacle {
        Obstacle { x, gap_y: on_screen(drawn as int) as i32, size: gap_size(score as int) as i32 }
    }

    /// The gap lies on the screen and is two rows high at least.
    pub open spec fn wf(self) -> bool {
        0 <= self.gap_y <= SCREEN_HEIGHT && 2 <= self.size
    }

    /// The first row of the gap: the wall above it ends before this row.
    pub open spec fn spec_top(self) -> int {
        self.gap_y - half(self.size as int)
    }

    /// The row at which the wall below the gap begins.
    pub open spec fn spec_bottom(self) -> int {
        self.gap_y + half(self.size as int)
    }

    /// Whether a player at column `x` and row `y` has flown into the wall:
    /// it is in the wall's column and above the gap or below it.
    pub open spec fn spec_hit(self, player: Player) -> bool {
        player.x == self.x && (player.y < self.spec_top() || player.y > self.spec_bottom())
    }

    /// Whether the wall fills row `y` of its column.
    pub open spec fn spec_is_wall(self, y: int) -> bool {
        (0 <= y < self.spec_top()) || (self.spec_bottom() <= y < SCREEN_HEIGHT)
    }

    /// The obstacle in column `x` that follows the score `score`, where
    /// `drawn` is the row that was drawn for its gap. The score must not be
    /// so far below zero that 20 less the score leaves 32 bits.
    pub fn with_gap(x: i32, score: i32, drawn: i32) -> (obstacle: Obstacle)
        requires
            20 - score <= i32::MAX,
        ensures
            obstacle == Obstacle::spec_with_gap(x, score, drawn),
            obstacle.wf(),
    {
        let gap_y: i32 = if drawn < 0 {
            0
        } else if drawn > SCREEN_HEIGHT {
            SCREEN_HEIGHT
        } else {
            drawn
        };
        let size: i32 = if 20 - score < 2 {
            2
        } else {
            20 - score
        };
        Obstacle { x, gap_y, size }
    }

    /// The obstacle in column `x` that follows the score `score`, with its
    /// gap at a row that is drawn at random between `GAP_FROM` and
    /// `GAP_BELOW`.
    pub fn new(x: i32, score: i32) -> (obstacle: Obstacle)
        requires
            20 - score <= i32::MAX,
        ensures
            exists|drawn: i32|
                GAP_FROM <= drawn < GAP_BELOW && obstacle == #[trigger] Obstacle::spec_with_gap(
                    x,
                    score,
                    drawn,
                ),
            obstacle.x == x,
            obstacle.size == gap_size(score as int),
            GAP_FROM <= obstacle.gap_y < GAP_BELOW,
            obstacle.wf(),
    {
        let mut random = RandomNumberGenerator::new();
        let drawn: i32 = draw(&mut random, GAP_FROM, GAP_BELOW);
        Obstacle::with_gap(x, score, drawn)
    }

    /// The first row of the gap.
    pub fn top(&self) -> (row: i64)
        ensures
            row == self.spec_top(),
    {
        self.gap_y as i64 - (self.size / 2) as i64
    }

    /// The row at which the wall below the gap begins.
    pub fn bottom(&self) -> (row: i64)
        ensures
            row == self.spec_bottom(),
    {
        self.gap_y as i64 + (self.size / 2) as i64
    }

    /// Whether the player has flown into the wall.
    pub fn hit_obstacle(&self, player: &Player) -> (hit: bool)
        ensures
            hit == self.spec_hit(*player),
    {
        player.x == self.x && ((player.y as i64) < self.top() || (player.y as i64) > self.bottom())
    }

    /// Whether the wall fills row `y` of its column.
    pub fn is_wall(&self, y: i32) -> (wall: bool)
        ensures
            wall == self.spec_is_wall(y as int),
    {
        (0 <= y && (y as i64) < self.top()) || (self.bottom() <= y as i64 && y < SCREEN_HEIGHT)
    }

    /// The column of the screen in which the wall is drawn while the player
    /// is at column `player_x`; `None` where that number leaves 32 bits.
    pub fn screen_x(&self, player_x: i32) -> (column: Option<i32>)
        ensures
            match column {
                Some(c) => c == self.x - player_x,
                None => self.x - player_x < i32::MIN || self.x - player_x > i32::MAX,
            },
    {
        self.x.checked_sub(player_x)
    }
}

/// A game: the player, the obstacle ahead and the score.
#[derive(Clone, Copy, Debug, PartialEq, Eq, Structural)]
pub struct Game {
    pub player: Player,
    pub mode: GameMode,
    pub obstacle: Obstacle,
    pub score: i32,
}

/// Where a player begins.
pub open spec fn start_player() -> Player {
    Player { x: 5, y: 25 }
}

impl Game {
    /// A game at its beginning in the given mode, where `drawn` is the row
    /// that was drawn for the gap of the first obstacle.
    pub open spec fn begun(mode: GameMode, drawn: i32) -> Game {
        Game {
            player: start_player(),
            mode,
            obstacle: Obstacle::spec_with_gap(SCREEN_WIDTH, 0, drawn),
            score: 0,
        }
    }

    /// Whether the player has passed the obstacle.
    pub open spec fn passed(self) -> bool {
        self.player.x > self.obstacle.x
    }

    /// The game after the player has passed the obstacle: the score has
    /// grown by one, and a new obstacle stands a screen's width ahead of the
    /// player, where `drawn` is the row that was drawn for its gap.
    pub open spec fn scored(self, drawn: i32) -> Game {
        Game {
            score: (self.score + 1) as i32,
            obstacle: Obstacle::spec_with_gap(
                (self.player.x + SCREEN_WIDTH) as i32,
                (self.score + 1) as i32,
                drawn,
            ),
            ..self
        }
    }

    /// Whether the game is lost: the player has fallen below the screen or
    /// flown into the wall.
    pub open spec fn lost(self) -> bool {
        self.player.y > SCREEN_HEIGHT || self.obstacle.spec_hit(self.player)
    }

    /// The game after it has been judged: it has ended if it is lost.
    pub open spec fn judged(self) -> Game {
        if self.lost() {
            Game { mode: GameMode::End, ..self }
        } else {
            self
        }
    }

    /// The game after the player has moved, where `drawn` is the row that
    /// was drawn for the gap of a new obstacle, should one be needed.
    pub open spec fn after_move(self, drawn: i32) -> Game {
        if self.passed() {
            self.scored(drawn).judged()
        } else {
            self.judged()
        }
    }

    /// A game that shows its menu.
    pub fn new() -> (game: Game)
        ensures
            exists|drawn: i32|
                GAP_FROM <= drawn < GAP_BELOW && game == #[trigger] Game::begun(
                    GameMode::Menu,
                    drawn,
                ),
    {
        let obstacle = Obstacle::new(SCREEN_WIDTH, 0);
        let game = Game { player: Player::new(5, 25), mode: GameMode::Menu, obstacle, score: 0 };
        assert(game == Game::begun(GameMode::Menu, obstacle.gap_y));
        game
    }

    /// Begins the game anew, and plays.
    pub fn restart(&mut self)
        ensures
            exists|drawn: i32|
                GAP_FROM <= drawn < GAP_BELOW && *final(self) == #[trigger] Game::begun(
                    GameMode::Playing,
                    drawn,
                ),
    {
        let obstacle = Obstacle::new(SCREEN_WIDTH, 0);
        *self = Game { player: Player::new(5, 25), mode: GameMode::Playing, obstacle, score: 0 };
        assert(*self == Game::begun(GameMode::Playing, obstacle.gap_y));
    }

    /// Ends the game if it is lost.
    pub fn judge(&mut self)
        ensures
            *final(self) == old(self).judged(),
    {
        if self.player.y > SCREEN_HEIGHT || self.obstacle.hit_obstacle(&self.player) {
            self.mode = GameMode::End;
        }
    }

    /// Counts the obstacle that the player has passed and puts up the next
    /// one, with its gap at the row `drawn`. The numbers have to stay within
    /// 32 bits.
    pub fn score_with_gap(&mut self, drawn: i32)
        requires
            old(self).score < i32::MAX,
            19 - old(self).score <= i32::MAX,
            old(self).player.x + SCREEN_WIDTH <= i32::MAX,
        ensures
            *final(self) == old(self).scored(drawn),
    {
        self.score = self.score + 1;
        self.obstacle = Obstacle::with_gap(self.player.x + SCREEN_WIDTH, self.score, drawn);
    }

    /// What follows each move of the player: an obstacle that was passed is
    /// counted and replaced by one with its gap at a row drawn at random,
    /// and the game ends if it is lost. The numbers have to stay within 32
    /// bits.
    pub fn settle(&mut self)
        requires
            old(self).score < i32::MAX,
            19 - old(self).score <= i32::MAX,
            old(self).player.x + SCREEN_WIDTH <= i32::MAX,
        ensures
            exists|drawn: i32|
                GAP_FROM <= drawn < GAP_BELOW && *final(self) == #[trigger] old(self).after_move(
                    drawn,
                ),
            !old(self).passed() ==> *final(self) == old(self).judged(),
    {
        if self.player.x > self.obstacle.x {
            let mut random = RandomNumberGenerator::new();
            let drawn: i32 = draw(&mut random, GAP_FROM, GAP_BELOW);
            self.score_with_gap(drawn);
            self.judge();
            assert(*self == old(self).after_move(drawn));
        } else {
            self.judge();
            assert(*self == old(self).after_move(GAP_FROM));
        }
    }
}

} // verus!
